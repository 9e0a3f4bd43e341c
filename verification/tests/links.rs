use audio_fetch::links::{classify, playlist_members, PLAYLIST_MARKER};

#[test]
fn lines_with_the_marker_are_playlists() {
    let links = classify("https://x/watch?v=1\nhttps://x/playlist?list=2\n");
    assert_eq!(links.videos, vec!["https://x/watch?v=1"]);
    assert_eq!(links.playlists, vec!["https://x/playlist?list=2"]);
}

#[test]
fn a_video_inside_a_playlist_is_a_playlist_link() {
    let links = classify("https://x/watch?v=1&list=PL9");
    assert!(links.videos.is_empty());
    assert_eq!(links.playlists, vec!["https://x/watch?v=1&list=PL9"]);
}

#[test]
fn blank_lines_are_dropped_and_links_trimmed() {
    let links = classify("\n  https://x/a  \r\n\r\n\t\nhttps://x/b?list=1\t\n   \n");
    assert_eq!(links.videos, vec!["https://x/a"]);
    assert_eq!(links.playlists, vec!["https://x/b?list=1"]);
}

#[test]
fn empty_input_has_no_links() {
    let links = classify("");
    assert!(links.videos.is_empty());
    assert!(links.playlists.is_empty());
    let links = classify("\n\n  \n");
    assert!(links.videos.is_empty());
    assert!(links.playlists.is_empty());
}

#[test]
fn order_is_kept_and_duplicates_stay() {
    let links = classify("b\nlist=2\na\nb\nlist=1\nlist=2\n");
    assert_eq!(links.videos, vec!["b", "a", "b"]);
    assert_eq!(links.playlists, vec!["list=2", "list=1", "list=2"]);
}

#[test]
fn malformed_links_pass_through() {
    let links = classify("not a link at all\n::::\n");
    assert_eq!(links.videos, vec!["not a link at all", "::::"]);
    assert!(links.playlists.is_empty());
}

#[test]
fn every_link_lands_on_exactly_one_side() {
    let input = "a\n list=1 \n\nb?list=\nc&list\nlist\n\nd\n";
    let links = classify(input);
    let entries: Vec<&str> = input.lines().map(|l| l.trim()).filter(|l| !l.is_empty()).collect();
    assert_eq!(links.videos.len() + links.playlists.len(), entries.len());
    for entry in entries {
        let marked = entry.contains(PLAYLIST_MARKER);
        assert_eq!(links.playlists.iter().any(|l| l == entry), marked);
        assert_eq!(links.videos.iter().any(|l| l == entry), !marked);
    }
}

#[test]
fn the_marker_is_the_list_parameter() {
    assert_eq!(PLAYLIST_MARKER, "list=");
}

#[test]
fn a_listing_holds_one_member_per_line() {
    assert_eq!(
        playlist_members(b"https://x/watch?v=3\nhttps://x/watch?v=4\n"),
        Some(vec!["https://x/watch?v=3".to_string(), "https://x/watch?v=4".to_string()])
    );
    assert_eq!(playlist_members(b"one\r\ntwo"), Some(vec!["one".to_string(), "two".to_string()]));
    assert_eq!(playlist_members(b""), Some(Vec::new()));
}

#[test]
fn an_ill_formed_listing_has_no_members() {
    assert_eq!(playlist_members(b"https://x/\xff\n"), None);
}

#[test]
fn a_listing_beyond_ascii_is_decoded() {
    assert_eq!(
        playlist_members("https://x/é\nhttps://x/🎵\n".as_bytes()),
        Some(vec!["https://x/é".to_string(), "https://x/🎵".to_string()])
    );
}

#[test]
fn truncated_and_surrogate_encodings_are_ill_formed() {
    assert_eq!(playlist_members(b"\xc3"), None);
    assert_eq!(playlist_members(b"ok\n\xed\xa0\x80"), None);
    assert_eq!(playlist_members(b"\xc0\xaf"), None);
}
