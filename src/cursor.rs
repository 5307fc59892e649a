//! Playlist cursor: maps the time elapsed since a schedule entry began onto
//! a clip of the playlist and an offset inside it.
use vstd::prelude::*;

verus! {

/// One clip of a playlist, with its duration in milliseconds.
pub struct ClipRef {
    /// The clip's own identifier, when the playlist record carries one.
    pub id: Option<String>,
    /// Absolute path of the media file.
    pub source: String,
    pub duration_ms: u64,
}

/// Where the cursor rests: the clip's position in the playlist and the
/// offset into that clip.
#[derive(Clone, Copy, Debug, PartialEq, Eq, Structural)]
pub struct Cursor {
    pub index: usize,
    pub offset_ms: u64,
}

/// The elapsed time lies at or beyond the end of the playlist.
#[derive(Clone, Copy, Debug, PartialEq, Eq, Structural)]
pub enum LocateError {
    EndOfPlaylist,
}

/// The durations of the clips, in playlist order.
pub open spec fn durations(clips: Seq<ClipRef>) -> Seq<u64> {
    clips.map_values(|c: ClipRef| c.duration_ms)
}

/// Total duration of the first `n` entries of `d` (`0 <= n <= d.len()`).
pub open spec fn prefix_total(d: Seq<u64>, n: int) -> int
    decreases n,
{
    if n <= 0 || n > d.len() {
        0
    } else {
        prefix_total(d, n - 1) + d[n - 1]
    }
}

/// Total duration of the whole sequence of durations.
pub open spec fn total(d: Seq<u64>) -> int {
    prefix_total(d, d.len() as int)
}

/// Clip `i` is playing when `elapsed` milliseconds have gone by.
pub open spec fn covers(d: Seq<u64>, i: int, elapsed: int) -> bool {
    &&& 0 <= i < d.len()
    &&& prefix_total(d, i) <= elapsed < prefix_total(d, i + 1)
}

/// The identifier by which a clip is known in a running sequence: its own
/// id, or its path where it has none.
pub open spec fn clip_key(c: ClipRef) -> Seq<char> {
    match c.id {
        Some(id) => id@,
        None => c.source@,
    }
}

/// Prefix totals never decrease.
pub proof fn lemma_prefix_monotone(d: Seq<u64>, i: int, j: int)
    requires
        0 <= i <= j <= d.len(),
    ensures
        prefix_total(d, i) <= prefix_total(d, j),
    decreases j - i,
{
    if i < j {
        lemma_prefix_monotone(d, i, j - 1);
    }
}

/// For every elapsed time before the end of the playlist exactly one clip is
/// playing, and the offset into it is below its duration; from the end on,
/// none is.
pub proof fn lemma_cursor_selects_exactly_one(d: Seq<u64>, elapsed: int)
    requires
        0 <= elapsed,
    ensures
        elapsed < total(d) ==> exists|i: int| covers(d, i, elapsed),
        forall|i: int, j: int| covers(d, i, elapsed) && covers(d, j, elapsed) ==> i == j,
        forall|i: int|
            covers(d, i, elapsed) ==> 0 <= elapsed - prefix_total(d, i) < d[i],
        elapsed >= total(d) ==> forall|i: int| !covers(d, i, elapsed),
{
    assert forall|i: int, j: int| covers(d, i, elapsed) && covers(d, j, elapsed) implies i == j by {
        if i < j {
            lemma_prefix_monotone(d, i + 1, j);
        } else if j < i {
            lemma_prefix_monotone(d, j + 1, i);
        }
    }
    assert forall|i: int| elapsed >= total(d) && 0 <= i < d.len() implies !covers(d, i, elapsed) by {
        lemma_prefix_monotone(d, i + 1, d.len() as int);
    }
    if elapsed < total(d) {
        lemma_some_clip_covers(d, elapsed, d.len() as int);
    }
}

proof fn lemma_some_clip_covers(d: Seq<u64>, elapsed: int, n: int)
    requires
        0 <= elapsed < prefix_total(d, n),
        0 <= n <= d.len(),
    ensures
        exists|i: int| 0 <= i < n && covers(d, i, elapsed),
    decreases n,
{
    if elapsed >= prefix_total(d, n - 1) {
        assert(covers(d, n - 1, elapsed));
    } else {
        lemma_some_clip_covers(d, elapsed, n - 1);
    }
}

impl ClipRef {
    /// A copy of this clip.
    pub fn duplicate(&self) -> (r: ClipRef)
        ensures
            r == *self,
    {
        let id = match &self.id {
            Some(s) => Some(s.clone()),
            None => None,
        };
        ClipRef { id, source: self.source.clone(), duration_ms: self.duration_ms }
    }

    /// The identifier of this clip in a running sequence.
    pub fn key(&self) -> (r: String)
        ensures
            r@ == clip_key(*self),
    {
        match &self.id {
            Some(s) => s.clone(),
            None => self.source.clone(),
        }
    }
}

/// Finds the clip that is playing `elapsed_ms` milliseconds after the
/// playlist began, and the offset into it.
pub fn locate(clips: &Vec<ClipRef>, elapsed_ms: u64) -> (r: Result<Cursor, LocateError>)
    ensures
        r.is_ok() <==> (elapsed_ms as int) < total(durations(clips@)),
        r matches Ok(c) ==> {
            &&& covers(durations(clips@), c.index as int, elapsed_ms as int)
            &&& c.offset_ms == elapsed_ms - prefix_total(durations(clips@), c.index as int)
        },
{
    let ghost d = durations(clips@);
    let mut acc: u64 = 0;
    let mut i: usize = 0;
    while i < clips.len()
        invariant
            d == durations(clips@),
            0 <= i <= clips.len(),
            acc as int == prefix_total(d, i as int),
            acc <= elapsed_ms,
        decreases clips.len() - i,
    {
        let dur = clips[i].duration_ms;
        assert(d[i as int] == dur);
        if elapsed_ms - acc < dur {
            proof {
                lemma_cursor_selects_exactly_one(d, elapsed_ms as int);
                lemma_prefix_monotone(d, i as int + 1, d.len() as int);
            }
            return Ok(Cursor { index: i, offset_ms: elapsed_ms - acc });
        }
        acc = acc + dur;
        i = i + 1;
    }
    Err(LocateError::EndOfPlaylist)
}

/// The clips that follow clip `index`, at most `cap` of them, in playlist
/// order: the look-ahead queue shown in the status.
pub fn upcoming(clips: &Vec<ClipRef>, index: usize, cap: usize) -> (r: Vec<ClipRef>)
    ensures
        index < clips.len() ==> r@ == clips@.subrange(
            index + 1,
            if index + 1 + cap <= clips.len() { index + 1 + cap } else { clips.len() as int },
        ),
        index >= clips.len() ==> r@.len() == 0,
{
    let mut r: Vec<ClipRef> = Vec::new();
    if index >= clips.len() {
        return r;
    }
    let end: usize = if cap <= clips.len() - index - 1 { index + 1 + cap } else { clips.len() };
    let mut i: usize = index + 1;
    while i < end
        invariant
            index < clips.len(),
            index + 1 <= i <= end <= clips.len(),
            r@ == clips@.subrange(index + 1, i as int),
        decreases end - i,
    {
        r.push(clips[i].duplicate());
        proof {
            assert(r@ =~= clips@.subrange(index + 1, i + 1));
        }
        i = i + 1;
    }
    r
}

} // verus!
