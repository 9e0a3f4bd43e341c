//! The link list: which lines of the input are links, and which of those
//! name a playlist.

use crate::text::{contains, decode, lines, lines_of, occurs_in, trim, trimmed, views};
use vstd::prelude::*;
use vstd::utf8::{decode_utf8, valid_utf8};

verus! {

/// A link that holds this text names a playlist.
pub const PLAYLIST_MARKER: &'static str = "list=";

/// The links of an input, by what they name.
pub struct Links {
    /// Links to playlists, in input order.
    pub playlists: Vec<String>,
    /// Links to single videos, in input order.
    pub videos: Vec<String>,
}

/// Whether `link` names a playlist.
pub open spec fn is_playlist(link: Seq<char>) -> bool {
    occurs_in(PLAYLIST_MARKER@, link)
}

/// The test that keeps the playlist links.
pub open spec fn playlist_test() -> spec_fn(Seq<char>) -> bool {
    |link: Seq<char>| is_playlist(link)
}

/// The test that keeps the links to single videos.
pub open spec fn video_test() -> spec_fn(Seq<char>) -> bool {
    |link: Seq<char>| !is_playlist(link)
}

/// The test that keeps what is not empty.
pub open spec fn filled() -> spec_fn(Seq<char>) -> bool {
    |line: Seq<char>| line.len() > 0
}

/// The links in `contents`: its lines, trimmed, without the empty ones.
pub open spec fn entries(contents: Seq<char>) -> Seq<Seq<char>> {
    lines_of(contents).map_values(|line: Seq<char>| trimmed(line)).filter(filled())
}

/// The playlist links in `contents`, in order.
pub open spec fn playlists_of(contents: Seq<char>) -> Seq<Seq<char>> {
    entries(contents).filter(playlist_test())
}

/// The links to single videos in `contents`, in order.
pub open spec fn videos_of(contents: Seq<char>) -> Seq<Seq<char>> {
    entries(contents).filter(video_test())
}

/// The member links that a playlist listing holds, one per line; `None` if
/// the listing is not well-formed UTF-8.
pub open spec fn members_of(listing: Seq<u8>) -> Option<Seq<Seq<char>>> {
    if valid_utf8(listing) {
        Some(lines_of(decode_utf8(listing)))
    } else {
        None
    }
}

/// Splitting links into playlists and videos loses and adds nothing: each
/// link goes to exactly one side, as often as it occurs.
pub proof fn lemma_split_is_partition(all: Seq<Seq<char>>)
    ensures
        all.to_multiset() == all.filter(playlist_test()).to_multiset().add(
            all.filter(video_test()).to_multiset(),
        ),
        all.filter(playlist_test()).len() + all.filter(video_test()).len() == all.len(),
    decreases all.len(),
{
    broadcast use vstd::seq_lib::group_to_multiset_ensures;

    let test = playlist_test();
    let other = video_test();
    if all.len() == 0 {
        assert(all.filter(test) =~= Seq::empty()) by {
            reveal(Seq::filter);
        }
        assert(all.filter(other) =~= Seq::empty()) by {
            reveal(Seq::filter);
        }
        assert(all.to_multiset() =~= all.filter(test).to_multiset().add(
            all.filter(other).to_multiset(),
        ));
    } else {
        let front = all.drop_last();
        let x = all.last();
        lemma_split_is_partition(front);
        assert(all =~= front.push(x));
        front.lemma_filter_push(x, test);
        front.lemma_filter_push(x, other);
        assert(all.to_multiset() =~= all.filter(test).to_multiset().add(
            all.filter(other).to_multiset(),
        ));
    }
}

/// Every link of an input is either a playlist link or a video link, never
/// both: a link goes to the playlists exactly if it holds the marker, and
/// every other link occurs among the videos as often as in the input.
pub proof fn lemma_classification(contents: Seq<char>)
    ensures
        entries(contents).to_multiset() == playlists_of(contents).to_multiset().add(
            videos_of(contents).to_multiset(),
        ),
        playlists_of(contents).len() + videos_of(contents).len() == entries(contents).len(),
        forall|link: Seq<char>|
            playlists_of(contents).contains(link) <==> entries(contents).contains(link)
                && is_playlist(link),
        forall|link: Seq<char>|
            videos_of(contents).contains(link) <==> entries(contents).contains(link)
                && !is_playlist(link),
        forall|link: Seq<char>| entries(contents).contains(link) ==> link.len() > 0,
{
    let all = entries(contents);
    lemma_split_is_partition(all);
    lemma_filter_keeps(all, playlist_test());
    lemma_filter_keeps(all, video_test());
    lemma_filter_keeps(lines_of(contents).map_values(|line: Seq<char>| trimmed(line)), filled());
}

/// What a filter lets through are the elements that pass its test.
pub proof fn lemma_filter_keeps(all: Seq<Seq<char>>, test: spec_fn(Seq<char>) -> bool)
    ensures
        forall|x: Seq<char>| all.filter(test).contains(x) <==> all.contains(x) && test(x),
    decreases all.len(),
{
    if all.len() == 0 {
        assert(all.filter(test) =~= Seq::empty()) by {
            reveal(Seq::filter);
        }
    } else {
        let front = all.drop_last();
        let last = all.last();
        lemma_filter_keeps(front, test);
        assert(all =~= front.push(last));
        front.lemma_filter_push(last, test);
        assert forall|x: Seq<char>| all.filter(test).contains(x) <==> all.contains(x) && test(
            x,
        ) by {
            if all.filter(test).contains(x) {
                let i = choose|i: int|
                    0 <= i < all.filter(test).len() && all.filter(test)[i] == x;
                if test(last) && i == all.filter(test).len() - 1 {
                    assert(all[all.len() - 1] == x);
                } else {
                    assert(front.filter(test)[i] == x);
                    assert(front.contains(x));
                    let j = choose|j: int| 0 <= j < front.len() && front[j] == x;
                    assert(all[j] == x);
                }
            }
            if all.contains(x) && test(x) {
                let j = choose|j: int| 0 <= j < all.len() && all[j] == x;
                if j == all.len() - 1 {
                    assert(all.filter(test)[all.filter(test).len() - 1] == x);
                } else {
                    assert(front[j] == x);
                    assert(front.contains(x));
                    let i = choose|i: int|
                        0 <= i < front.filter(test).len() && front.filter(test)[i] == x;
                    assert(all.filter(test)[i] == x);
                }
            }
        }
    }
}

/// Sorts the links of `contents` into playlist links and video links.
pub fn classify(contents: &str) -> (links: Links)
    ensures
        views(links.playlists@) == playlists_of(contents@),
        views(links.videos@) == videos_of(contents@),
{
    let all = lines(contents);
    let mut playlists: Vec<String> = Vec::new();
    let mut videos: Vec<String> = Vec::new();
    let ghost trim_line = |line: Seq<char>| trimmed(line);
    proof {
        assert(lines_of(contents@).take(0) =~= Seq::empty());
        assert(Seq::<Seq<char>>::empty().map_values(trim_line) =~= Seq::empty());
        reveal(Seq::filter);
        assert(views(playlists@) =~= Seq::empty());
        assert(views(videos@) =~= Seq::empty());
    }
    for i in 0..all.len()
        invariant
            views(all@) == lines_of(contents@),
            trim_line == |line: Seq<char>| trimmed(line),
            views(playlists@) == lines_of(contents@).take(i as int).map_values(trim_line).filter(
                filled(),
            ).filter(playlist_test()),
            views(videos@) == lines_of(contents@).take(i as int).map_values(trim_line).filter(
                filled(),
            ).filter(video_test()),
    {
        let link = trim(all[i].as_str());
        proof {
            let done = lines_of(contents@).take(i as int);
            let line = lines_of(contents@)[i as int];
            assert(line == views(all@)[i as int]);
            assert(lines_of(contents@).take(i + 1) =~= done.push(line));
            done.lemma_push_map_commute(trim_line, line);
            done.map_values(trim_line).lemma_filter_push(trim_line(line), filled());
            let kept = done.map_values(trim_line).filter(filled());
            kept.lemma_filter_push(link@, playlist_test());
            kept.lemma_filter_push(link@, video_test());
            assert(views(playlists@.push(link)) =~= views(playlists@).push(link@));
            assert(views(videos@.push(link)) =~= views(videos@).push(link@));
        }
        if link.as_str().is_empty() {
        } else if contains(link.as_str(), PLAYLIST_MARKER) {
            playlists.push(link);
        } else {
            videos.push(link);
        }
    }
    proof {
        assert(lines_of(contents@).take(all.len() as int) =~= lines_of(contents@));
    }
    Links { playlists, videos }
}

/// The member links in the listing that the media tool printed for a
/// playlist; `None` if the listing is not well-formed UTF-8.
pub fn playlist_members(listing: &[u8]) -> (members: Option<Vec<String>>)
    ensures
        members is Some <==> members_of(listing@) is Some,
        members matches Some(m) ==> views(m@) == members_of(listing@)->0,
{
    match decode(listing) {
        Some(text) => Some(lines(text)),
        None => None,
    }
}

} // verus!
