use audio_fetch::pipeline::{Action, Event, Pipeline, PipelineError, Stage};

fn commands_of(result: Result<Action, PipelineError>) -> Vec<Vec<String>> {
    match result {
        Ok(Action::Run { commands }) => commands,
        _ => panic!("the step did not ask for commands to be run"),
    }
}

fn error_of(result: Result<Action, PipelineError>) -> PipelineError {
    match result {
        Err(error) => error,
        Ok(_) => panic!("the step was accepted"),
    }
}

fn loaded(contents: &str) -> (Pipeline, Vec<Vec<String>>) {
    let (mut run, _) = Pipeline::new();
    assert!(matches!(run.step(Event::Bootstrapped), Ok(Action::ReadInput { .. })));
    let commands = commands_of(run.step(Event::InputRead(contents.to_string())));
    (run, commands)
}

#[test]
fn a_run_starts_by_asking_for_its_files() {
    let (run, action) = Pipeline::new();
    assert_eq!(run.stage(), Stage::Bootstrapping);
    assert!(run.tasks().is_empty());
    assert!(run.playlists().is_empty());
    match action {
        Action::Bootstrap { directory, input_file } => {
            assert_eq!(directory, "./audio/");
            assert_eq!(input_file, "./to_download.txt");
        }
        _ => panic!("the first action is not the bootstrap"),
    }
}

#[test]
fn after_the_bootstrap_the_input_is_read() {
    let (mut run, _) = Pipeline::new();
    match run.step(Event::Bootstrapped) {
        Ok(Action::ReadInput { path }) => assert_eq!(path, "./to_download.txt"),
        _ => panic!("the input was not asked for"),
    }
    assert_eq!(run.stage(), Stage::Loading);
}

#[test]
fn one_video_and_one_playlist_give_two_titled_tasks() {
    let (mut run, listing) = loaded("https://x/watch?v=1\nhttps://x/playlist?list=2\n");
    assert_eq!(run.stage(), Stage::Expanding);
    assert_eq!(listing, vec![vec!["--flat-playlist", "--print", "url", "https://x/playlist?list=2"]]);
    assert_eq!(run.playlists(), &vec!["https://x/playlist?list=2".to_string()]);

    let titles = commands_of(run.step(Event::Outputs(vec![b"https://x/watch?v=3\n".to_vec()])));
    assert_eq!(run.stage(), Stage::Resolving);
    assert_eq!(
        titles,
        vec![
            vec!["--print", "title", "--skip-download", "https://x/watch?v=1"],
            vec!["--print", "title", "--skip-download", "https://x/watch?v=3"],
        ]
    );
    assert_eq!(run.tasks().len(), 2);
    assert!(run.tasks().iter().all(|task| task.title.is_none()));

    let downloads = commands_of(run.step(Event::Outputs(vec![
        b"First Song | Channel\n".to_vec(),
        b"  Second (Official Video)\n".to_vec(),
    ])));
    assert_eq!(run.stage(), Stage::Downloading);
    let tasks = run.tasks();
    assert_eq!(tasks.len(), 2);
    assert_eq!(tasks[0].link, "https://x/watch?v=1");
    assert_eq!(tasks[0].title, Some("First Song".to_string()));
    assert_eq!(tasks[1].link, "https://x/watch?v=3");
    assert_eq!(tasks[1].title, Some("Second".to_string()));
    assert_eq!(
        downloads,
        vec![
            vec!["-x", "--audio-format", "mp3", "-o", "./audio/First Song.%(ext)s", "https://x/watch?v=1"],
            vec!["-x", "--audio-format", "mp3", "-o", "./audio/Second.%(ext)s", "https://x/watch?v=3"],
        ]
    );

    assert!(matches!(run.step(Event::Outputs(vec![Vec::new(), Vec::new()])), Ok(Action::Finish)));
    assert_eq!(run.stage(), Stage::Finished);
    assert_eq!(run.tasks().len(), 2);
}

#[test]
fn an_empty_input_runs_through_with_nothing_to_do() {
    let (mut run, listing) = loaded("");
    assert!(listing.is_empty());
    assert!(commands_of(run.step(Event::Outputs(Vec::new()))).is_empty());
    assert!(commands_of(run.step(Event::Outputs(Vec::new()))).is_empty());
    assert!(matches!(run.step(Event::Outputs(Vec::new())), Ok(Action::Finish)));
    assert_eq!(run.stage(), Stage::Finished);
    assert!(run.tasks().is_empty());
}

#[test]
fn videos_come_first_then_members_playlist_by_playlist() {
    let (mut run, listing) = loaded("p?list=1\nv1\nq?list=2\nv2\nv1\n");
    assert_eq!(listing.len(), 2);
    run.step(Event::Outputs(vec![b"m1\nm2\n".to_vec(), b"v1\r\nm3".to_vec()])).unwrap();
    let links: Vec<&str> = run.tasks().iter().map(|task| task.link.as_str()).collect();
    assert_eq!(links, vec!["v1", "v2", "v1", "m1", "m2", "v1", "m3"]);
}

#[test]
fn an_empty_title_leaves_the_file_name_to_the_tool() {
    let (mut run, _) = loaded("v1\nv2\n");
    run.step(Event::Outputs(Vec::new())).unwrap();
    let downloads =
        commands_of(run.step(Event::Outputs(vec![b"[HD] x\n".to_vec(), b"ok\xff\n".to_vec()])));
    assert_eq!(run.tasks()[0].title, Some(String::new()));
    assert_eq!(run.tasks()[1].title, Some("ok\u{fffd}".to_string()));
    assert_eq!(downloads[0], vec!["-x", "--audio-format", "mp3", "v1"]);
    assert_eq!(downloads[1], vec!["-x", "--audio-format", "mp3", "-o", "./audio/ok\u{fffd}.%(ext)s", "v2"]);
}

#[test]
fn a_title_depends_on_its_own_output_alone() {
    let mut titles = Vec::new();
    for other in [&b"Other | x\n"[..], &b"\xff\xfe"[..], &b""[..]] {
        let (mut run, _) = loaded("v1\nv2\n");
        run.step(Event::Outputs(Vec::new())).unwrap();
        run.step(Event::Outputs(vec![b"Mine (live)\n".to_vec(), other.to_vec()])).unwrap();
        assert_eq!(run.tasks()[0].link, "v1");
        assert_eq!(run.tasks()[1].link, "v2");
        titles.push(run.tasks()[0].title.clone());
    }
    assert_eq!(titles, vec![Some("Mine".to_string()); 3]);
}

#[test]
fn events_out_of_turn_are_refused_and_change_nothing() {
    let (mut run, _) = Pipeline::new();
    assert_eq!(error_of(run.step(Event::InputRead("v".to_string()))), PipelineError::UnexpectedEvent);
    assert_eq!(error_of(run.step(Event::Outputs(Vec::new()))), PipelineError::UnexpectedEvent);
    assert_eq!(run.stage(), Stage::Bootstrapping);
    run.step(Event::Bootstrapped).unwrap();
    assert_eq!(error_of(run.step(Event::Bootstrapped)), PipelineError::UnexpectedEvent);
    assert_eq!(error_of(run.step(Event::Outputs(Vec::new()))), PipelineError::UnexpectedEvent);
    assert_eq!(run.stage(), Stage::Loading);
    run.step(Event::InputRead("v\n".to_string())).unwrap();
    assert_eq!(error_of(run.step(Event::Bootstrapped)), PipelineError::UnexpectedEvent);
    assert_eq!(error_of(run.step(Event::InputRead(String::new()))), PipelineError::UnexpectedEvent);
    assert_eq!(run.stage(), Stage::Expanding);
    assert_eq!(run.tasks().len(), 1);
}

#[test]
fn a_finished_run_takes_no_more_events() {
    let (mut run, _) = loaded("");
    run.step(Event::Outputs(Vec::new())).unwrap();
    run.step(Event::Outputs(Vec::new())).unwrap();
    run.step(Event::Outputs(Vec::new())).unwrap();
    assert_eq!(error_of(run.step(Event::Outputs(Vec::new()))), PipelineError::UnexpectedEvent);
    assert_eq!(error_of(run.step(Event::Bootstrapped)), PipelineError::UnexpectedEvent);
    assert_eq!(run.stage(), Stage::Finished);
}

#[test]
fn a_wrong_number_of_outputs_is_refused_at_every_stage() {
    let (mut run, _) = loaded("v\np?list=1\n");
    assert_eq!(error_of(run.step(Event::Outputs(Vec::new()))), PipelineError::OutputCount);
    assert_eq!(
        error_of(run.step(Event::Outputs(vec![Vec::new(), Vec::new()]))),
        PipelineError::OutputCount
    );
    assert_eq!(run.stage(), Stage::Expanding);
    run.step(Event::Outputs(vec![b"m\n".to_vec()])).unwrap();
    assert_eq!(error_of(run.step(Event::Outputs(vec![b"t".to_vec()]))), PipelineError::OutputCount);
    assert_eq!(run.stage(), Stage::Resolving);
    assert!(run.tasks().iter().all(|task| task.title.is_none()));
    run.step(Event::Outputs(vec![b"a".to_vec(), b"b".to_vec()])).unwrap();
    assert_eq!(error_of(run.step(Event::Outputs(Vec::new()))), PipelineError::OutputCount);
    assert_eq!(run.stage(), Stage::Downloading);
    assert_eq!(run.tasks()[1].title, Some("b".to_string()));
}

#[test]
fn an_ill_formed_listing_is_refused_and_adds_no_task() {
    let (mut run, _) = loaded("v\np?list=1\nq?list=2\n");
    assert_eq!(
        error_of(run.step(Event::Outputs(vec![b"m\n".to_vec(), b"\xff\n".to_vec()]))),
        PipelineError::UnreadableListing
    );
    assert_eq!(run.stage(), Stage::Expanding);
    assert_eq!(run.tasks().len(), 1);
    run.step(Event::Outputs(vec![b"m\n".to_vec(), b"n\n".to_vec()])).unwrap();
    assert_eq!(run.tasks().len(), 3);
}
