//! One video to process.

use vstd::prelude::*;

verus! {

/// A video to download: where it is, and what to call it once that is known.
#[derive(Debug, Clone)]
pub struct VideoTask {
    /// The link to the video.
    pub link: String,
    /// The sanitized display title, once resolved.
    pub title: Option<String>,
}

/// What a [`VideoTask`] holds, as plain text.
pub struct TaskView {
    pub link: Seq<char>,
    pub title: Option<Seq<char>>,
}

impl View for VideoTask {
    type V = TaskView;

    open spec fn view(&self) -> TaskView {
        TaskView {
            link: self.link@,
            title: match self.title {
                Some(title) => Some(title@),
                None => None,
            },
        }
    }
}

/// The views of a sequence of tasks.
pub open spec fn task_views(tasks: Seq<VideoTask>) -> Seq<TaskView> {
    tasks.map_values(|task: VideoTask| task@)
}

/// The task for `link`, before its title is known.
pub open spec fn untitled(link: Seq<char>) -> TaskView {
    TaskView { link, title: None }
}

/// `task` with the title `title`.
pub open spec fn titled(task: TaskView, title: Seq<char>) -> TaskView {
    TaskView { link: task.link, title: Some(title) }
}

impl VideoTask {
    /// A task for the video at `link`, with no title yet.
    pub fn new(link: String) -> (task: VideoTask)
        ensures
            task@ == untitled(link@),
    {
        VideoTask { link, title: None }
    }

    /// Records the resolved title; the link stays.
    pub fn set_title(&mut self, title: String)
        ensures
            final(self)@ == titled(old(self)@, title@),
    {
        self.title = Some(title);
    }
}

} // verus!
