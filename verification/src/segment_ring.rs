//! The rolling buffer of one-second video segments on disk.

use crate::text::texts;
use std::collections::VecDeque;
use vstd::prelude::*;

verus! {

/// Segments that the ring holds beyond one for each second of a clip.
pub const SPARE_SEGMENTS: usize = 4;

/// Nanoseconds for which a segment file must have been left alone to count as finished.
pub const SETTLE_NANOS: i64 = 2_000_000_000;

/// A file in the segments directory, as a directory listing shows it.
pub struct SegmentFile {
    pub path: String,
    pub file_name: String,
    /// When the file was last written, in nanoseconds since the Unix epoch, where that could
    /// be read.
    pub modified: Option<i64>,
}

/// The finished segments, oldest first, and how many of them may stay.
pub struct SegmentRing {
    segments: VecDeque<String>,
    segments_dir: String,
    max_count: usize,
}

/// A segment file on its way into the ring: when it was finished, and its path.
pub type Finished = (i64, Seq<char>);

/// Whether a file of this name has the extension `ts`.
pub open spec fn has_ts_extension(name: Seq<char>) -> bool {
    name.len() > 3 && name.skip(name.len() - 3) == seq!['.', 't', 's']
}

/// Whether the file is a finished segment that is not among the `known` ones.
pub open spec fn is_fresh(f: SegmentFile, known: Seq<Seq<char>>, now: i64) -> bool {
    &&& has_ts_extension(f.file_name@)
    &&& !known.contains(f.path@)
    &&& f.modified is Some
    &&& f.modified->0 < now - SETTLE_NANOS
}

/// `s` with `x` put behind all that was finished no later than `x`.
pub open spec fn in_time_order(s: Seq<Finished>, x: Finished) -> Seq<Finished>
    decreases s.len(),
{
    if s.len() == 0 || s.last().0 <= x.0 {
        s.push(x)
    } else {
        in_time_order(s.drop_last(), x).push(s.last())
    }
}

/// The fresh segments of a listing, in the order in which they were finished.
pub open spec fn arrivals(files: Seq<SegmentFile>, known: Seq<Seq<char>>, now: i64) -> Seq<Finished>
    decreases files.len(),
{
    if files.len() == 0 {
        Seq::empty()
    } else {
        let before = arrivals(files.drop_last(), known, now);
        let f = files.last();
        if is_fresh(f, known, now) {
            in_time_order(before, (f.modified->0, f.path@))
        } else {
            before
        }
    }
}

/// The paths of finished segments.
pub open spec fn paths(s: Seq<Finished>) -> Seq<Seq<char>> {
    s.map_values(|x: Finished| x.1)
}

/// The ring's segments once the arrivals are added and none has left yet.
pub open spec fn grown(ring: Seq<Seq<char>>, files: Seq<SegmentFile>, now: i64) -> Seq<Seq<char>> {
    ring + paths(arrivals(files, ring, now))
}

/// How many of `len` segments are too many.
pub open spec fn surplus(len: nat, max_count: nat) -> nat {
    if len > max_count {
        (len - max_count) as nat
    } else {
        0
    }
}

/// The last `n` of `s`, or all of them where there are fewer.
pub open spec fn newest<A>(s: Seq<A>, n: nat) -> Seq<A> {
    s.skip(surplus(s.len(), n) as int)
}

/// The ring's segments after an update for clips of `clip_secs` seconds.
pub open spec fn held_after(
    ring: Seq<Seq<char>>,
    files: Seq<SegmentFile>,
    now: i64,
    clip_secs: u32,
) -> Seq<Seq<char>> {
    newest(grown(ring, files, now), (clip_secs + SPARE_SEGMENTS) as nat)
}

fn ts_extension(name: &str) -> (r: bool)
    ensures
        r == has_ts_extension(name@),
{
    let n: usize = name.unicode_len();
    if n <= 3 {
        return false;
    }
    let r = name.get_char(n - 3) == '.' && name.get_char(n - 2) == 't' && name.get_char(n - 1)
        == 's';
    proof {
        let end = name@.skip(n - 3);
        assert(end[0] == name@[n - 3] && end[1] == name@[n - 2] && end[2] == name@[n - 1]);
        if r {
            assert(end =~= seq!['.', 't', 's']);
        }
    }
    r
}

/// Puts a finished segment into its place in the order of time.
fn insert_in_time_order(times: &mut Vec<i64>, names: &mut Vec<String>, time: i64, name: String)
    requires
        old(times)@.len() == old(names)@.len(),
    ensures
        final(times)@.len() == final(names)@.len(),
        zip(final(times)@, final(names)@) == in_time_order(
            zip(old(times)@, old(names)@),
            (time, name@),
        ),
{
    let ghost s = zip(times@, names@);
    let ghost x = (time, name@);
    let mut p: usize = times.len();
    assert(s.take(p as int) =~= s);
    assert(in_time_order(s, x) =~= in_time_order(s.take(p as int), x) + s.skip(p as int));
    while p > 0 && times[p - 1] > time
        invariant
            p <= times@.len(),
            times@.len() == names@.len(),
            s == zip(times@, names@),
            x.0 == time,
            in_time_order(s, x) == in_time_order(s.take(p as int), x) + s.skip(p as int),
        decreases p,
    {
        proof {
            let front = s.take(p as int);
            assert(front.last().0 == times@[p - 1]);
            assert(front.drop_last() =~= s.take(p - 1));
            assert(in_time_order(front, x) == in_time_order(s.take(p - 1), x).push(s[p - 1]));
            assert(in_time_order(s.take(p - 1), x).push(s[p - 1]) + s.skip(p as int)
                =~= in_time_order(s.take(p - 1), x) + s.skip(p - 1));
        }
        p = p - 1;
    }
    proof {
        let front = s.take(p as int);
        if p > 0 {
            assert(front.last().0 == times@[p - 1]);
        }
        assert(in_time_order(front, x) == front.push(x));
    }
    times.insert(p, time);
    names.insert(p, name);
    assert(zip(times@, names@) =~= s.take(p as int).push(x) + s.skip(p as int));
}

/// Times and names, side by side.
spec fn zip(times: Seq<i64>, names: Seq<String>) -> Seq<Finished> {
    Seq::new(times.len(), |i: int| (times[i], names[i]@))
}

impl SegmentRing {
    /// The paths of the ring's segments, oldest first.
    pub closed spec fn segments(self) -> Seq<Seq<char>> {
        texts(self.segments@)
    }

    /// How many segments may stay.
    pub closed spec fn max_count(self) -> nat {
        self.max_count as nat
    }

    /// The directory in which the segments lie.
    pub closed spec fn dir(self) -> Seq<char> {
        self.segments_dir@
    }

    /// The ring never holds more segments than may stay.
    pub open spec fn wf(self) -> bool {
        self.segments().len() <= self.max_count()
    }

    /// A ring for clips of up to `max_secs` seconds that holds nothing yet.
    pub fn new(segments_dir: String, max_secs: u32) -> (r: SegmentRing)
        requires
            max_secs + SPARE_SEGMENTS <= usize::MAX,
        ensures
            r.wf(),
            r.segments() == Seq::<Seq<char>>::empty(),
            r.max_count() == max_secs + SPARE_SEGMENTS,
            r.dir() == segments_dir@,
    {
        let r = SegmentRing {
            segments: VecDeque::new(),
            segments_dir,
            max_count: max_secs as usize + SPARE_SEGMENTS,
        };
        assert(r.segments() =~= Seq::<Seq<char>>::empty());
        r
    }

    /// The directory in which the segments lie.
    pub fn segments_dir(&self) -> (d: &str)
        ensures
            d@ == self.dir(),
    {
        self.segments_dir.as_str()
    }

    fn holds(&self, path: &String) -> (r: bool)
        ensures
            r == self.segments().contains(path@),
    {
        let mut i: usize = 0;
        while i < self.segments.len()
            invariant
                i <= self.segments@.len(),
                forall|j: int| 0 <= j < i ==> #[trigger] self.segments()[j] != path@,
            decreases self.segments@.len() - i,
        {
            if self.segments[i] == *path {
                assert(self.segments()[i as int] == path@);
                return true;
            }
            i = i + 1;
        }
        assert(self.segments().len() == self.segments@.len());
        false
    }

    /// Takes in a listing of the segments directory: the finished segments that the ring does
    /// not hold yet join it in the order in which they were finished, and the oldest ones
    /// leave until no more than a clip of `clip_secs` seconds and the spare ones are left.
    /// The result is the paths of those that left, whose files are to be deleted.
    pub fn update(&mut self, clip_secs: u32, files: &Vec<SegmentFile>, now: i64) -> (removed: Vec<
        String,
    >)
        requires
            clip_secs + SPARE_SEGMENTS <= usize::MAX,
            now - SETTLE_NANOS >= i64::MIN,
        ensures
            final(self).wf(),
            final(self).max_count() == clip_secs + SPARE_SEGMENTS,
            final(self).dir() == old(self).dir(),
            final(self).segments() == newest(
                grown(old(self).segments(), files@, now),
                final(self).max_count(),
            ),
            final(self).segments() == held_after(old(self).segments(), files@, now, clip_secs),
            texts(removed@) + final(self).segments() == grown(old(self).segments(), files@, now),
            all_distinct(old(self).segments()) && distinct_paths(files@) ==> all_distinct(
                final(self).segments(),
            ),
    {
        self.max_count = clip_secs as usize + SPARE_SEGMENTS;
        let cutoff: i64 = now - SETTLE_NANOS;
        let ghost known = self.segments();
        let mut times: Vec<i64> = Vec::new();
        let mut names: Vec<String> = Vec::new();
        let mut i: usize = 0;
        assert(zip(times@, names@) =~= arrivals(files@.take(0), known, now));
        while i < files.len()
            invariant
                i <= files@.len(),
                cutoff == now - SETTLE_NANOS,
                known == self.segments(),
                times@.len() == names@.len(),
                zip(times@, names@) == arrivals(files@.take(i as int), known, now),
            decreases files@.len() - i,
        {
            let f = &files[i];
            proof {
                let upto = files@.take(i + 1);
                assert(upto.last() == *f);
                assert(upto.drop_last() =~= files@.take(i as int));
            }
            if ts_extension(f.file_name.as_str()) && !self.holds(&f.path) {
                if let Some(m) = f.modified {
                    if m < cutoff {
                        insert_in_time_order(&mut times, &mut names, m, f.path.clone());
                    }
                }
            }
            i = i + 1;
        }
        assert(files@.take(i as int) =~= files@);
        let ghost fresh = zip(times@, names@);
        let ghost all = known + paths(fresh);
        assert(paths(fresh) =~= texts(names@));
        let mut n: usize = 0;
        assert(self.segments() =~= known + texts(names@).take(0));
        while n < names.len()
            invariant
                n <= names@.len(),
                self.segments_dir == old(self).segments_dir,
                self.max_count == clip_secs + SPARE_SEGMENTS,
                self.segments() =~= known + texts(names@).take(n as int),
            decreases names@.len() - n,
        {
            let ghost before = self.segments@;
            self.segments.push_back(names[n].clone());
            assert(self.segments() =~= texts(before).push(names@[n as int]@));
            assert(texts(names@).take(n + 1) =~= texts(names@).take(n as int).push(
                names@[n as int]@,
            ));
            n = n + 1;
        }
        assert(texts(names@).take(n as int) =~= texts(names@));
        let mut removed: Vec<String> = Vec::new();
        assert(texts(removed@) + self.segments() =~= all);
        while self.segments.len() > self.max_count
            invariant
                self.segments_dir == old(self).segments_dir,
                self.max_count == clip_secs + SPARE_SEGMENTS,
                texts(removed@) + self.segments() =~= all,
                removed@.len() > 0 ==> self.segments@.len() >= self.max_count,
            decreases self.segments@.len(),
        {
            let ghost before = self.segments();
            let ghost gone = removed@;
            if let Some(first) = self.segments.pop_front() {
                removed.push(first);
                assert(before[0] == first@);
                assert(self.segments() =~= before.drop_first());
                assert(texts(removed@) =~= texts(gone).push(first@));
            }
        }
        assert(self.segments() =~= all.skip(removed@.len() as int));
        assert(all.len() == removed@.len() + self.segments@.len());
        proof {
            if all_distinct(known) && distinct_paths(files@) {
                law_no_segment_twice(known, files@, now, self.max_count as nat);
            }
        }
        removed
    }

    /// Empties the ring. The result is the paths that were in it, whose files are to be
    /// deleted.
    pub fn clear(&mut self) -> (removed: Vec<String>)
        ensures
            final(self).wf(),
            final(self).segments() == Seq::<Seq<char>>::empty(),
            final(self).max_count() == old(self).max_count(),
            final(self).dir() == old(self).dir(),
            texts(removed@) == old(self).segments(),
    {
        let mut removed: Vec<String> = Vec::new();
        let ghost all = self.segments();
        assert(texts(removed@) + self.segments() =~= all);
        while self.segments.len() > 0
            invariant
                self.segments_dir == old(self).segments_dir,
                self.max_count == old(self).max_count,
                texts(removed@) + self.segments() =~= all,
            decreases self.segments@.len(),
        {
            let ghost before = self.segments();
            let ghost gone = removed@;
            if let Some(first) = self.segments.pop_front() {
                removed.push(first);
                assert(before[0] == first@);
                assert(self.segments() =~= before.drop_first());
                assert(texts(removed@) =~= texts(gone).push(first@));
            }
        }
        assert(self.segments() =~= Seq::<Seq<char>>::empty());
        assert(texts(removed@) =~= all);
        removed
    }

    /// The segments of the last `duration_secs` seconds, oldest first: all of them where the
    /// ring holds fewer.
    pub fn get_clip_segments(&self, duration_secs: u32) -> (r: Vec<String>)
        ensures
            texts(r@) == newest(self.segments(), duration_secs as nat),
    {
        let len: usize = self.segments.len();
        let start: usize = if len as u64 > duration_secs as u64 {
            len - duration_secs as usize
        } else {
            0
        };
        let mut r: Vec<String> = Vec::new();
        let mut i: usize = start;
        while i < len
            invariant
                start <= i <= len == self.segments@.len(),
                texts(r@) =~= self.segments().subrange(start as int, i as int),
            decreases len - i,
        {
            let ghost before = r@;
            r.push(self.segments[i].clone());
            assert(texts(r@) =~= texts(before).push(self.segments()[i as int]));
            i = i + 1;
        }
        assert(texts(r@) =~= newest(self.segments(), duration_secs as nat));
        r
    }
}

/// Whether nothing occurs twice.
pub open spec fn all_distinct(s: Seq<Seq<char>>) -> bool {
    forall|i: int, j: int| 0 <= i < j < s.len() ==> #[trigger] s[i] != #[trigger] s[j]
}

/// Whether no two files of a listing have one path.
pub open spec fn distinct_paths(files: Seq<SegmentFile>) -> bool {
    forall|i: int, j: int|
        0 <= i < j < files.len() ==> (#[trigger] files[i]).path@ != (#[trigger] files[j]).path@
}

/// The fresh segments of a listing, in the order of the listing.
pub open spec fn fresh_in_listing(
    files: Seq<SegmentFile>,
    known: Seq<Seq<char>>,
    now: i64,
) -> Seq<Finished>
    decreases files.len(),
{
    if files.len() == 0 {
        Seq::empty()
    } else {
        let before = fresh_in_listing(files.drop_last(), known, now);
        let f = files.last();
        if is_fresh(f, known, now) {
            before.push((f.modified->0, f.path@))
        } else {
            before
        }
    }
}

proof fn lemma_in_time_order(s: Seq<Finished>, x: Finished)
    requires
        forall|i: int, j: int| 0 <= i <= j < s.len() ==> (#[trigger] s[i]).0 <= (#[trigger] s[j]).0,
    ensures
        forall|i: int, j: int|
            0 <= i <= j < in_time_order(s, x).len() ==> (#[trigger] in_time_order(s, x)[i]).0 <= (
            #[trigger] in_time_order(s, x)[j]).0,
        in_time_order(s, x).to_multiset() == s.to_multiset().insert(x),
        in_time_order(s, x).len() == s.len() + 1,
        in_time_order(s, x).last().0 == x.0 || (s.len() > 0 && in_time_order(s, x).last()
            == s.last()),
    decreases s.len(),
{
    broadcast use vstd::seq_lib::group_to_multiset_ensures;

    if s.len() == 0 || s.last().0 <= x.0 {
        assert forall|i: int, j: int| 0 <= i <= j < s.push(x).len() implies (
        #[trigger] s.push(x)[i]).0 <= (#[trigger] s.push(x)[j]).0 by {
            if j == s.len() && i < s.len() {
                assert(s[i].0 <= s[s.len() - 1].0);
            }
        }
    } else {
        let front = s.drop_last();
        assert forall|i: int, j: int| 0 <= i <= j < front.len() implies (#[trigger] front[i]).0 <= (
        #[trigger] front[j]).0 by {
            assert(front[i] == s[i] && front[j] == s[j]);
        }
        lemma_in_time_order(front, x);
        let t = in_time_order(front, x);
        let r = t.push(s.last());
        assert forall|i: int, j: int| 0 <= i <= j < r.len() implies (#[trigger] r[i]).0 <= (
        #[trigger] r[j]).0 by {
            if j == t.len() && i < t.len() {
                assert(t[i].0 <= t[t.len() - 1].0);
                if front.len() > 0 {
                    assert(s[s.len() - 2].0 <= s[s.len() - 1].0);
                }
            }
        }
        assert(s =~= front.push(s.last()));
        assert(s.to_multiset() =~= front.to_multiset().insert(s.last()));
        assert(r.to_multiset() =~= s.to_multiset().insert(x));
    }
}

/// What joins the ring joins it in the order in which it was finished, and it is the fresh
/// segments of the listing, each as often as it is listed.
pub proof fn law_arrivals_are_sorted(files: Seq<SegmentFile>, known: Seq<Seq<char>>, now: i64)
    ensures
        forall|i: int, j: int|
            0 <= i <= j < arrivals(files, known, now).len() ==> (#[trigger] arrivals(
                files,
                known,
                now,
            )[i]).0 <= (#[trigger] arrivals(files, known, now)[j]).0,
        arrivals(files, known, now).to_multiset() == fresh_in_listing(
            files,
            known,
            now,
        ).to_multiset(),
    decreases files.len(),
{
    broadcast use vstd::seq_lib::group_to_multiset_ensures;

    if files.len() > 0 {
        law_arrivals_are_sorted(files.drop_last(), known, now);
        let f = files.last();
        if is_fresh(f, known, now) {
            lemma_in_time_order(
                arrivals(files.drop_last(), known, now),
                (f.modified->0, f.path@),
            );
        }
    }
}

proof fn lemma_in_time_order_is_stable(s: Seq<Finished>, x: Finished, time: i64)
    ensures
        in_time_order(s, x).filter(|y: Finished| y.0 == time) == if x.0 == time {
            s.filter(|y: Finished| y.0 == time).push(x)
        } else {
            s.filter(|y: Finished| y.0 == time)
        },
    decreases s.len(),
{
    reveal(Seq::filter);
    if s.len() == 0 || s.last().0 <= x.0 {
        assert(s.push(x).drop_last() =~= s);
    } else {
        lemma_in_time_order_is_stable(s.drop_last(), x, time);
        let r = in_time_order(s.drop_last(), x);
        assert(r.push(s.last()).drop_last() =~= r);
    }
}

/// Segments finished at one moment join the ring in the order of the listing.
pub proof fn law_arrivals_are_stable(
    files: Seq<SegmentFile>,
    known: Seq<Seq<char>>,
    now: i64,
    time: i64,
)
    ensures
        arrivals(files, known, now).filter(|y: Finished| y.0 == time) == fresh_in_listing(
            files,
            known,
            now,
        ).filter(|y: Finished| y.0 == time),
    decreases files.len(),
{
    if files.len() > 0 {
        law_arrivals_are_stable(files.drop_last(), known, now, time);
        let f = files.last();
        if is_fresh(f, known, now) {
            let x = (f.modified->0, f.path@);
            lemma_in_time_order_is_stable(arrivals(files.drop_last(), known, now), x, time);
            let before = fresh_in_listing(files.drop_last(), known, now);
            reveal(Seq::filter);
            assert(before.push(x).drop_last() =~= before);
        }
    }
}

proof fn lemma_in_time_order_holds(s: Seq<Finished>, x: Finished, y: Finished)
    ensures
        in_time_order(s, x).contains(y) <==> y == x || s.contains(y),
    decreases s.len(),
{
    let r = in_time_order(s, x);
    if s.len() == 0 || s.last().0 <= x.0 {
        assert(r[r.len() - 1] == x);
        if s.contains(y) {
            let k = choose|k: int| 0 <= k < s.len() && s[k] == y;
            assert(r[k] == y);
        }
    } else {
        let front = s.drop_last();
        let t = in_time_order(front, x);
        lemma_in_time_order_holds(front, x, y);
        assert(r[r.len() - 1] == s.last());
        if s.contains(y) && y != s.last() {
            let k = choose|k: int| 0 <= k < s.len() && s[k] == y;
            assert(front[k] == y);
        }
        if t.contains(y) {
            let k = choose|k: int| 0 <= k < t.len() && t[k] == y;
            assert(r[k] == y);
        }
        if r.contains(y) && y != s.last() {
            let k = choose|k: int| 0 <= k < r.len() && r[k] == y;
            assert(t[k] == y);
        }
        if front.contains(y) {
            let k = choose|k: int| 0 <= k < front.len() && front[k] == y;
            assert(s[k] == y);
        }
    }
}

/// A path joins the ring where it is that of a fresh file of the listing, and only there.
pub proof fn law_arrivals_come_from_the_listing(
    files: Seq<SegmentFile>,
    known: Seq<Seq<char>>,
    now: i64,
    y: Finished,
)
    ensures
        arrivals(files, known, now).contains(y) <==> exists|k: int|
            0 <= k < files.len() && is_fresh(#[trigger] files[k], known, now) && files[k].modified
                == Some(y.0) && files[k].path@ == y.1,
    decreases files.len(),
{
    if files.len() > 0 {
        let front = files.drop_last();
        let f = files.last();
        law_arrivals_come_from_the_listing(front, known, now, y);
        if is_fresh(f, known, now) {
            lemma_in_time_order_holds(
                arrivals(front, known, now),
                (f.modified->0, f.path@),
                y,
            );
            assert(files[files.len() - 1] == f);
        }
        if arrivals(front, known, now).contains(y) {
            let k = choose|k: int|
                0 <= k < front.len() && is_fresh(#[trigger] front[k], known, now)
                    && front[k].modified == Some(y.0) && front[k].path@ == y.1;
            assert(files[k] == front[k]);
        }
        if exists|k: int|
            0 <= k < files.len() && is_fresh(#[trigger] files[k], known, now) && files[k].modified
                == Some(y.0) && files[k].path@ == y.1 {
            let k = choose|k: int|
                0 <= k < files.len() && is_fresh(#[trigger] files[k], known, now)
                    && files[k].modified == Some(y.0) && files[k].path@ == y.1;
            if k < front.len() {
                assert(front[k] == files[k]);
            }
        }
    }
}

proof fn lemma_in_time_order_distinct(s: Seq<Finished>, x: Finished)
    requires
        all_distinct(paths(s)),
        forall|i: int| 0 <= i < s.len() ==> (#[trigger] s[i]).1 != x.1,
    ensures
        all_distinct(paths(in_time_order(s, x))),
    decreases s.len(),
{
    let r = in_time_order(s, x);
    if s.len() == 0 || s.last().0 <= x.0 {
        assert forall|i: int, j: int| 0 <= i < j < paths(r).len() implies #[trigger] paths(r)[i]
            != #[trigger] paths(r)[j] by {
            if j < s.len() {
                assert(paths(s)[i] != paths(s)[j]);
            } else {
                assert(s[i].1 != x.1);
            }
        }
    } else {
        let front = s.drop_last();
        let t = in_time_order(front, x);
        assert forall|i: int, j: int| 0 <= i < j < paths(front).len() implies #[trigger] paths(
            front,
        )[i] != #[trigger] paths(front)[j] by {
            assert(paths(s)[i] != paths(s)[j]);
        }
        assert forall|i: int| 0 <= i < front.len() implies (#[trigger] front[i]).1 != x.1 by {
            assert(front[i] == s[i]);
        }
        lemma_in_time_order_distinct(front, x);
        assert forall|i: int, j: int| 0 <= i < j < paths(r).len() implies #[trigger] paths(r)[i]
            != #[trigger] paths(r)[j] by {
            if j < t.len() {
                assert(paths(t)[i] != paths(t)[j]);
            } else {
                assert(t[i] == r[i]);
                assert(t.contains(t[i]));
                lemma_in_time_order_holds(front, x, t[i]);
                assert(s[s.len() - 1].1 != x.1);
                if t[i] != x {
                    let k = choose|k: int| 0 <= k < front.len() && front[k] == t[i];
                    assert(paths(s)[k] != paths(s)[s.len() - 1]);
                }
            }
        }
    }
}

proof fn lemma_arrivals_distinct(files: Seq<SegmentFile>, known: Seq<Seq<char>>, now: i64)
    requires
        distinct_paths(files),
    ensures
        all_distinct(paths(arrivals(files, known, now))),
    decreases files.len(),
{
    if files.len() > 0 {
        let front = files.drop_last();
        let f = files.last();
        let before = arrivals(front, known, now);
        assert forall|i: int, j: int| 0 <= i < j < front.len() implies (#[trigger] front[i]).path@
            != (#[trigger] front[j]).path@ by {
            assert(front[i] == files[i] && front[j] == files[j]);
        }
        lemma_arrivals_distinct(front, known, now);
        if is_fresh(f, known, now) {
            assert forall|i: int| 0 <= i < before.len() implies (#[trigger] before[i]).1
                != f.path@ by {
                assert(before.contains(before[i]));
                law_arrivals_come_from_the_listing(front, known, now, before[i]);
                let k = choose|k: int|
                    0 <= k < front.len() && is_fresh(#[trigger] front[k], known, now)
                        && front[k].modified == Some(before[i].0) && front[k].path@ == before[i].1;
                assert(front[k] == files[k]);
                assert(files[files.len() - 1] == f);
            }
            lemma_in_time_order_distinct(before, (f.modified->0, f.path@));
        }
    }
}

/// A ring in which no segment occurs twice stays so, since a listing names no path twice.
pub proof fn law_no_segment_twice(
    ring: Seq<Seq<char>>,
    files: Seq<SegmentFile>,
    now: i64,
    max_count: nat,
)
    requires
        all_distinct(ring),
        distinct_paths(files),
    ensures
        all_distinct(grown(ring, files, now)),
        all_distinct(newest(grown(ring, files, now), max_count)),
{
    let more = arrivals(files, ring, now);
    lemma_arrivals_distinct(files, ring, now);
    let all = grown(ring, files, now);
    assert forall|i: int, j: int| 0 <= i < j < all.len() implies #[trigger] all[i]
        != #[trigger] all[j] by {
        if j >= ring.len() {
            let b = j - ring.len();
            assert(all[j] == paths(more)[b]);
            if i >= ring.len() {
                assert(all[i] == paths(more)[i - ring.len()]);
            } else {
                assert(more.contains(more[b]));
                law_arrivals_come_from_the_listing(files, ring, now, more[b]);
                assert(ring.contains(ring[i]));
            }
        }
    }
    let kept = newest(all, max_count);
    let gone = surplus(all.len(), max_count) as int;
    assert forall|i: int, j: int| 0 <= i < j < kept.len() implies #[trigger] kept[i]
        != #[trigger] kept[j] by {
        assert(kept[i] == all[i + gone] && kept[j] == all[j + gone]);
    }
}

/// Only what left the ring is deleted, and all of it: a path is among those that an update hands
/// back if and only if it was there or arrived, and is no longer in the ring.
pub proof fn law_what_is_deleted_has_left(
    ring: Seq<Seq<char>>,
    files: Seq<SegmentFile>,
    now: i64,
    removed: Seq<Seq<char>>,
    kept: Seq<Seq<char>>,
    path: Seq<char>,
)
    requires
        all_distinct(ring),
        distinct_paths(files),
        removed + kept == grown(ring, files, now),
    ensures
        removed.contains(path) <==> grown(ring, files, now).contains(path) && !kept.contains(path),
{
    let all = grown(ring, files, now);
    law_no_segment_twice(ring, files, now, all.len());
    if removed.contains(path) {
        let i = choose|i: int| 0 <= i < removed.len() && removed[i] == path;
        assert(all[i] == path);
        if kept.contains(path) {
            let j = choose|j: int| 0 <= j < kept.len() && kept[j] == path;
            assert(all[removed.len() + j] == path);
        }
    }
    if all.contains(path) && !kept.contains(path) {
        let i = choose|i: int| 0 <= i < all.len() && all[i] == path;
        if i >= removed.len() {
            assert(kept[i - removed.len()] == path);
        }
        assert(removed[i] == path);
    }
}

/// A clip is cut from the newest segments: where enough have been gathered it has one for each
/// of its seconds, the last one of the ring at its end.
pub proof fn law_clip_is_the_newest(segments: Seq<Seq<char>>, secs: nat)
    ensures
        newest(segments, secs).len() == if segments.len() < secs {
            segments.len()
        } else {
            secs
        },
        newest(segments, secs).len() > 0 ==> newest(segments, secs).last() == segments.last(),
        forall|i: int|
            0 <= i < newest(segments, secs).len() ==> #[trigger] newest(segments, secs)[i]
                == segments[i + segments.len() - newest(segments, secs).len()],
{
}

/// After an update for clips of `secs` seconds, the clip is the last `secs` of all segments that
/// were there or arrived: what left the ring is never missed.
pub proof fn law_surplus_is_not_missed(all: Seq<Seq<char>>, secs: nat)
    ensures
        newest(newest(all, secs + SPARE_SEGMENTS as nat), secs) == newest(all, secs),
{
    assert(newest(newest(all, secs + SPARE_SEGMENTS as nat), secs) =~= newest(all, secs));
}

/// A file is a segment where its name is something and `.ts` behind it.
pub proof fn law_segments_are_ts_files(stem: Seq<char>, name: Seq<char>)
    ensures
        has_ts_extension(stem + seq!['.', 't', 's']) <==> stem.len() > 0,
        has_ts_extension(name) ==> name.len() > 3 && name[name.len() - 3] == '.' && name[name.len()
            - 2] == 't' && name[name.len() - 1] == 's',
{
    let whole = stem + seq!['.', 't', 's'];
    assert(whole.skip(whole.len() - 3) =~= seq!['.', 't', 's']);
    if has_ts_extension(name) {
        let end = name.skip(name.len() - 3);
        assert(end[0] == name[name.len() - 3] && end[1] == name[name.len() - 2] && end[2]
            == name[name.len() - 1]);
    }
}

/// A file of the listing joins the ring where it is a segment that the ring does not hold and that
/// was left alone for more than two seconds.
pub proof fn law_settled_segments_join(
    files: Seq<SegmentFile>,
    ring: Seq<Seq<char>>,
    now: i64,
    k: int,
    time: i64,
)
    requires
        0 <= k < files.len(),
        files[k].modified == Some(time),
        has_ts_extension(files[k].file_name@),
        !ring.contains(files[k].path@),
        time < now - 2_000_000_000,
    ensures
        arrivals(files, ring, now).contains((time, files[k].path@)),
        grown(ring, files, now).contains(files[k].path@),
{
    let y = (time, files[k].path@);
    assert(is_fresh(files[k], ring, now));
    law_arrivals_come_from_the_listing(files, ring, now, y);
    let a = arrivals(files, ring, now);
    let j = choose|j: int| 0 <= j < a.len() && a[j] == y;
    assert(grown(ring, files, now)[ring.len() + j] == files[k].path@);
}

/// Nothing else joins it: what arrives is in the listing, is a segment, was not there before and
/// was left alone for more than two seconds.
pub proof fn law_only_settled_segments_join(
    files: Seq<SegmentFile>,
    ring: Seq<Seq<char>>,
    now: i64,
    y: Finished,
)
    requires
        arrivals(files, ring, now).contains(y),
    ensures
        y.0 < now - 2_000_000_000,
        !ring.contains(y.1),
        exists|k: int|
            0 <= k < files.len() && (#[trigger] files[k]).path@ == y.1 && files[k].modified == Some(
                y.0,
            ) && has_ts_extension(files[k].file_name@),
{
    law_arrivals_come_from_the_listing(files, ring, now, y);
    let k = choose|k: int|
        0 <= k < files.len() && is_fresh(#[trigger] files[k], ring, now) && files[k].modified
            == Some(y.0) && files[k].path@ == y.1;
    assert(files[k].path@ == y.1);
}

/// An update keeps the order of the segments: those that were there come first, and those that
/// arrive behind them; it leaves one for each second of a clip and four more at most, and those
/// are the last ones.
pub proof fn law_update_keeps_the_last(
    ring: Seq<Seq<char>>,
    files: Seq<SegmentFile>,
    now: i64,
    clip_secs: u32,
    i: int,
)
    ensures
        ({
            let all = grown(ring, files, now);
            let kept = held_after(ring, files, now, clip_secs);
            &&& all.len() == ring.len() + arrivals(files, ring, now).len()
            &&& 0 <= i < ring.len() ==> all[i] == ring[i]
            &&& 0 <= i < arrivals(files, ring, now).len() ==> all[ring.len() + i] == arrivals(
                files,
                ring,
                now,
            )[i].1
            &&& kept.len() == if all.len() < clip_secs + 4 {
                all.len() as int
            } else {
                clip_secs + 4
            }
            &&& 0 <= i < kept.len() ==> kept[i] == all[all.len() - kept.len() + i]
        }),
{
}

} // verus!
