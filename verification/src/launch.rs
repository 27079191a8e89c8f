//! What the program settles when it starts: where ffmpeg is, and where clips go.

use crate::text::chars_of;
use vstd::prelude::*;

verus! {

/// The program that encodes the clips.
pub const FFMPEG_EXE: &'static str = "ffmpeg.exe";

/// A place where a program may be.
pub struct Candidate {
    pub path: String,
    pub exists: bool,
}

/// The first place where the program is: its bare name where it is in none, so that the system
/// looks for it.
pub open spec fn found(places: Seq<Candidate>, name: Seq<char>) -> Seq<char>
    decreases places.len(),
{
    if places.len() == 0 {
        name
    } else if places.first().exists {
        places.first().path@
    } else {
        found(places.drop_first(), name)
    }
}

/// Where to find a program, from the places where it may be, the best one first.
pub fn resolve_ffmpeg(places: &Vec<Candidate>, name: &str) -> (path: String)
    ensures
        path@ == found(places@, name@),
{
    let mut i: usize = 0;
    assert(places@.skip(0) =~= places@);
    while i < places.len()
        invariant
            0 <= i <= places@.len(),
            found(places@, name@) == found(places@.skip(i as int), name@),
        decreases places@.len() - i,
    {
        if places[i].exists {
            return places[i].path.clone();
        }
        assert(places@.skip(i as int).drop_first() =~= places@.skip(i + 1));
        i = i + 1;
    }
    name.to_owned()
}

/// Whether a character stands between the parts of a path.
pub open spec fn is_separator(c: char) -> bool {
    c == '\\' || c == '/'
}

/// A path as one that more can be put behind: with a separator at its end, unless it has one
/// there or is no path at all.
pub open spec fn with_separator(path: Seq<char>) -> Seq<char> {
    if path.len() == 0 || is_separator(path.last()) {
        path
    } else {
        path.push('\\')
    }
}

/// The directory that clips are written to: below the user's own directory, or below the one for
/// temporary files where that is not known.
pub open spec fn clips_path(profile: Option<Seq<char>>, temp: Seq<char>) -> Seq<char> {
    with_separator(
        match profile {
            Some(p) => p,
            None => temp,
        },
    ) + "Videos"@ + "\\Glimpse"@
}

/// The directory that clips are written to.
pub fn clips_dir(profile: Option<&str>, temp: &str) -> (d: String)
    ensures
        d@ == clips_path(
            match profile {
                Some(p) => Some(p@),
                None => None,
            },
            temp@,
        ),
{
    let base = match profile {
        Some(p) => p,
        None => temp,
    };
    let mut d = String::new();
    d.push_str(base);
    let chars = chars_of(base);
    let n: usize = chars.len();
    if n > 0 && chars[n - 1] != '\\' && chars[n - 1] != '/' {
        d.push('\\');
    }
    assert(d@ =~= with_separator(base@));
    d.push_str("Videos");
    d.push_str("\\Glimpse");
    d
}

/// Clips go to `Videos\Glimpse` below the user's own directory.
pub proof fn law_clips_go_below_the_profile(profile: Seq<char>, temp: Seq<char>)
    requires
        profile.len() > 0,
        !is_separator(profile.last()),
    ensures
        clips_path(Some(profile), temp) == profile + "\\Videos\\Glimpse"@,
{
    reveal_strlit("\\Videos\\Glimpse");
    reveal_strlit("\\Glimpse");
    reveal_strlit("Videos");
    assert(clips_path(Some(profile), temp) =~= profile + "\\Videos\\Glimpse"@);
}

/// The program is run from the first place where it is, whatever comes behind that place.
pub proof fn law_first_place_counts(places: Seq<Candidate>, name: Seq<char>, k: int)
    requires
        0 <= k < places.len(),
        places[k].exists,
        forall|i: int| 0 <= i < k ==> !(#[trigger] places[i]).exists,
    ensures
        found(places, name) == places[k].path@,
    decreases k,
{
    if k > 0 {
        assert(!places[0].exists);
        let rest = places.drop_first();
        assert(rest[k - 1] == places[k]);
        assert forall|i: int| 0 <= i < k - 1 implies !(#[trigger] rest[i]).exists by {
            assert(rest[i] == places[i + 1]);
        }
        law_first_place_counts(rest, name, k - 1);
    }
}

/// Where the program is in none of the places, its bare name is run.
pub proof fn law_bare_name_is_the_last_resort(places: Seq<Candidate>, name: Seq<char>)
    requires
        forall|i: int| 0 <= i < places.len() ==> !(#[trigger] places[i]).exists,
    ensures
        found(places, name) == name,
    decreases places.len(),
{
    if places.len() > 0 {
        assert(!places[0].exists);
        let rest = places.drop_first();
        assert forall|i: int| 0 <= i < rest.len() implies !(#[trigger] rest[i]).exists by {
            assert(rest[i] == places[i + 1]);
        }
        law_bare_name_is_the_last_resort(rest, name);
    }
}

/// Where the user's own directory is not known, clips go to the one for temporary files as they
/// would to it; and a directory that ends in a separator gets no second one.
pub proof fn law_clips_go_somewhere(dir: Seq<char>, temp: Seq<char>)
    ensures
        clips_path(None, temp) == clips_path(Some(temp), dir),
        clips_path(Some(dir.push('\\')), temp) == dir + "\\Videos\\Glimpse"@,
        clips_path(Some(dir.push('/')), temp) == dir + "/Videos\\Glimpse"@,
        clips_path(Some(Seq::empty()), temp) == "Videos\\Glimpse"@,
{
    reveal_strlit("\\Videos\\Glimpse");
    reveal_strlit("/Videos\\Glimpse");
    reveal_strlit("Videos\\Glimpse");
    reveal_strlit("\\Glimpse");
    reveal_strlit("Videos");
    assert(clips_path(Some(dir.push('\\')), temp) =~= dir + "\\Videos\\Glimpse"@);
    assert(clips_path(Some(dir.push('/')), temp) =~= dir + "/Videos\\Glimpse"@);
    assert(clips_path(Some(Seq::empty()), temp) =~= "Videos\\Glimpse"@);
}

} // verus!
