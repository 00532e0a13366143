//! The path value type used to address objects.
//!
//! An [`ObjectPath`] is an ordered sequence of non-empty segments together
//! with two flags: whether the path was constructed as rooted (absolute),
//! and whether it denotes a directory prefix (conceptually ends with a
//! separator). The empty path always counts as a directory prefix.

use vstd::prelude::*;
use vstd::string::*;

use crate::error::{self, StorageError};
use crate::segs_view;

verus! {

broadcast use crate::lemma_segs_view_index, crate::lemma_segs_view_len;

/// The mathematical value of an [`ObjectPath`]: its segments as character
/// sequences plus the two flags.
#[verifier::ext_equal]
pub ghost struct PathModel {
    pub absolute: bool,
    pub dir: bool,
    pub segments: Seq<Seq<char>>,
}

/// An immutable-by-sharing path value: non-empty segments plus the
/// rooted and directory-prefix flags.
#[derive(Debug, Clone)]
pub struct ObjectPath {
    absolute: bool,
    dir: bool,
    parts: Vec<String>,
}

impl View for ObjectPath {
    type V = PathModel;

    closed spec fn view(&self) -> PathModel {
        PathModel {
            absolute: self.absolute,
            dir: self.dir,
            segments: segs_view(self.parts@),
        }
    }
}

/// A well-formed segment is non-empty and contains no separator.
pub open spec fn seg_wf(s: Seq<char>) -> bool {
    s.len() > 0 && !s.contains('/')
}

impl PathModel {
    /// Well-formedness: every segment is non-empty and separator-free,
    /// and the empty path is a directory prefix.
    pub open spec fn wf(self) -> bool {
        &&& forall|i: int| 0 <= i < self.segments.len() ==> seg_wf(#[trigger] self.segments[i])
        &&& self.segments.len() == 0 ==> self.dir
    }
}

/// Positional prefix test on path values: every segment of `p` matches the
/// corresponding segment of `a`, and the directory flags agree whenever the
/// candidate is no longer than the prefix.
pub open spec fn path_starts_with(a: PathModel, p: PathModel) -> bool {
    &&& p.segments.len() <= a.segments.len()
    &&& p.segments =~= a.segments.take(p.segments.len() as int)
    &&& a.segments.len() == p.segments.len() ==> a.dir == p.dir
}

/// Whether a string opens with a platform drive designator (an ASCII letter
/// followed by a colon) or a backslash; such paths are rejected on parsing.
pub open spec fn has_drive_prefix(s: Seq<char>) -> bool {
    ||| s.len() >= 2 && is_ascii_letter(s[0]) && s[1] == ':'
    ||| s.len() >= 1 && s[0] == '\\'
}

pub open spec fn is_ascii_letter(c: char) -> bool {
    ('a' <= c && c <= 'z') || ('A' <= c && c <= 'Z')
}

/// A pending segment, kept only if non-empty.
pub open spec fn flush(cur: Seq<char>) -> Seq<Seq<char>> {
    if cur.len() == 0 {
        Seq::empty()
    } else {
        seq![cur]
    }
}

/// Splits `s` at separators, left to right, with `cur` the partial segment
/// read so far; empty chunks (from doubled or edge separators) are dropped.
pub open spec fn segs_rec(s: Seq<char>, cur: Seq<char>) -> Seq<Seq<char>>
    decreases s.len(),
{
    if s.len() == 0 {
        flush(cur)
    } else if s[0] == '/' {
        flush(cur) + segs_rec(s.drop_first(), Seq::empty())
    } else {
        segs_rec(s.drop_first(), cur.push(s[0]))
    }
}

/// The non-empty separator-separated chunks of a string.
pub open spec fn segs_of(s: Seq<char>) -> Seq<Seq<char>> {
    segs_rec(s, Seq::empty())
}

/// The path value a string parses to: its chunks as segments, rooted when
/// it opens with a separator, a directory prefix when it ends with one or
/// has no segments at all.
pub open spec fn parsed_model(s: Seq<char>) -> PathModel {
    PathModel {
        absolute: s.len() > 0 && s[0] == '/',
        dir: segs_of(s).len() == 0 || s[s.len() - 1] == '/',
        segments: segs_of(s),
    }
}

/// The segments joined by separators.
pub open spec fn join_segs(segs: Seq<Seq<char>>) -> Seq<char>
    decreases segs.len(),
{
    if segs.len() == 0 {
        Seq::empty()
    } else if segs.len() == 1 {
        segs[0]
    } else {
        join_segs(segs.drop_last()) + seq!['/'] + segs.last()
    }
}

/// The canonical string of a path value: a leading separator when rooted,
/// the segments joined by separators, a trailing separator on a non-empty
/// directory prefix.
pub open spec fn string_of(m: PathModel) -> Seq<char> {
    (if m.absolute {
        seq!['/']
    } else {
        Seq::empty()
    }) + join_segs(m.segments) + (if m.dir && m.segments.len() > 0 {
        seq!['/']
    } else {
        Seq::empty()
    })
}

impl ObjectPath {
    /// The empty (root) path: no segments, relative, a directory prefix.
    pub fn empty() -> (r: ObjectPath)
        ensures
            r@ =~= (PathModel { absolute: false, dir: true, segments: Seq::empty() }),
            r@.wf(),
    {
        ObjectPath { absolute: false, dir: true, parts: Vec::new() }
    }

    /// Parses a path from a string: separator-separated non-empty segments,
    /// rooted when the string opens with a separator, a directory prefix
    /// when it ends with one. Strings opening with a platform drive
    /// designator or a backslash are rejected.
    pub fn new(s: &str) -> (r: Result<ObjectPath, StorageError>)
        ensures
            r is Err <==> has_drive_prefix(s@),
            r matches Ok(p) ==> p@ =~= parsed_model(s@) && p@.wf(),
            r matches Err(e) ==> e@.kind == crate::error::StorageErrorKind::InvalidPath
                && e@.message == "Paths cannot include a platform drive prefix."@,
    {
        if str_has_drive_prefix(s) {
            return Err(error::invalid_path(
                ObjectPath::empty(),
                "Paths cannot include a platform drive prefix.",
            ));
        }
        let n = s.unicode_len();
        let absolute = n > 0 && s.get_char(0) == '/';
        let trailing = n > 0 && s.get_char(n - 1) == '/';
        let mut parts: Vec<String> = Vec::new();
        let mut start: usize = 0;
        let mut j: usize = 0;
        proof {
            assert(s@.skip(0) =~= s@);
            assert(s@.subrange(0, 0) =~= Seq::<char>::empty());
            assert(segs_view(parts@) =~= Seq::<Seq<char>>::empty());
        }
        while j < n
            invariant
                start <= j <= n == s@.len(),
                forall|k: int| start <= k < j ==> s@[k] != '/',
                segs_view(parts@) + segs_rec(
                    s@.skip(j as int),
                    s@.subrange(start as int, j as int),
                ) =~= segs_of(s@),
                forall|i: int|
                    0 <= i < parts@.len() ==> seg_wf(#[trigger] parts@[i]@),
            decreases n - j,
        {
            let ghost cur = s@.subrange(start as int, j as int);
            proof {
                assert(s@.skip(j as int)[0] == s@[j as int]);
                assert(s@.skip(j as int).drop_first() =~= s@.skip(j as int + 1));
            }
            let c = s.get_char(j);
            if c == '/' {
                if start < j {
                    let seg = s.substring_char(start, j).to_owned();
                    let ghost sg = seg;
                    let ghost old_parts = parts@;
                    parts.push(seg);
                    proof {
                        assert(sg@ == cur);
                        assert(cur.len() > 0);
                        assert(flush(cur) =~= seq![cur]);
                        assert forall|i: int| 0 <= i < parts@.len() implies seg_wf(
                            #[trigger] parts@[i]@,
                        ) by {
                            if i < old_parts.len() {
                                assert(parts@[i] == old_parts[i]);
                            } else {
                                assert(parts@[i] == sg);
                                assert(!cur.contains('/')) by {
                                    assert forall|k: int| 0 <= k < cur.len() implies cur[k]
                                        != '/' by {
                                        assert(cur[k] == s@[start + k]);
                                    }
                                }
                            }
                        }
                        assert(segs_view(parts@) =~= segs_view(old_parts) + seq![cur]) by {
                            assert forall|i: int| 0 <= i < parts@.len() implies #[trigger] segs_view(
                                parts@,
                            )[i] == (segs_view(old_parts) + seq![cur])[i] by {
                                assert(segs_view(parts@)[i] == parts@[i]@);
                                if i < old_parts.len() {
                                    assert(parts@[i] == old_parts[i]);
                                    assert(segs_view(old_parts)[i] == old_parts[i]@);
                                } else {
                                    assert(parts@[i] == sg);
                                }
                            }
                        }
                    }
                } else {
                    proof {
                        assert(cur.len() == 0);
                        assert(flush(cur) =~= Seq::<Seq<char>>::empty());
                    }
                }
                start = j + 1;
            }
            j = j + 1;
            proof {
                assert(s@.subrange(start as int, j as int) =~= if s@[j - 1] == '/' {
                    Seq::<char>::empty()
                } else {
                    cur.push(s@[j - 1])
                });
            }
        }
        proof {
            assert(s@.skip(n as int) =~= Seq::<char>::empty());
        }
        let ghost cur = s@.subrange(start as int, n as int);
        if start < n {
            let seg = s.substring_char(start, n).to_owned();
            let ghost sg = seg;
            let ghost old_parts = parts@;
            parts.push(seg);
            proof {
                assert(sg@ == cur);
                assert(flush(cur) =~= seq![cur]);
                assert forall|i: int| 0 <= i < parts@.len() implies seg_wf(
                    #[trigger] parts@[i]@,
                ) by {
                    if i < old_parts.len() {
                        assert(parts@[i] == old_parts[i]);
                    } else {
                        assert(parts@[i] == sg);
                        assert(!cur.contains('/')) by {
                            assert forall|k: int| 0 <= k < cur.len() implies cur[k] != '/' by {
                                assert(cur[k] == s@[start + k]);
                            }
                        }
                    }
                }
                assert(segs_view(parts@) =~= segs_view(old_parts) + seq![cur]) by {
                    assert forall|i: int| 0 <= i < parts@.len() implies #[trigger] segs_view(
                        parts@,
                    )[i] == (segs_view(old_parts) + seq![cur])[i] by {
                        assert(segs_view(parts@)[i] == parts@[i]@);
                        if i < old_parts.len() {
                            assert(parts@[i] == old_parts[i]);
                            assert(segs_view(old_parts)[i] == old_parts[i]@);
                        } else {
                            assert(parts@[i] == sg);
                        }
                    }
                }
                assert(segs_view(parts@) =~= segs_of(s@));
            }
        } else {
            proof {
                assert(flush(cur) =~= Seq::<Seq<char>>::empty());
                assert(segs_view(parts@) =~= segs_of(s@));
            }
        }
        let dir = parts.len() == 0 || trailing;
        let p = ObjectPath { absolute, dir, parts };
        proof {
            assert forall|i: int| 0 <= i < p@.segments.len() implies seg_wf(
                #[trigger] p@.segments[i],
            ) by {
                assert(p@.segments[i] == p.parts@[i]@);
            }
            assert(p@ =~= parsed_model(s@));
        }
        Ok(p)
    }

    /// The canonical string form: a leading separator when rooted, segments
    /// joined by separators, a trailing separator on a non-empty directory
    /// prefix. Parsing the result recovers the path exactly (see
    /// [`lemma_string_round_trip`]).
    pub fn to_string(&self) -> (r: String)
        requires
            self@.wf(),
        ensures
            r@ == string_of(self@),
    {
        proof {
            reveal_strlit("/");
            assert("/"@ =~= seq!['/']);
        }
        let mut out = String::new();
        if self.absolute {
            out.append("/");
        }
        let ghost lead: Seq<char> = if self.absolute {
            seq!['/']
        } else {
            Seq::empty()
        };
        proof {
            assert(out@ =~= lead + join_segs(self@.segments.take(0)));
        }
        let mut i: usize = 0;
        while i < self.parts.len()
            invariant
                i <= self.parts.len(),
                self@.wf(),
                lead == if self@.absolute { seq!['/'] } else { Seq::<char>::empty() },
                "/"@ == seq!['/'],
                out@ =~= lead + join_segs(self@.segments.take(i as int)),
            decreases self.parts.len() - i,
        {
            let ghost done = self@.segments.take(i as int);
            if i > 0 {
                out.append("/");
            }
            out.append(self.parts[i].as_str());
            proof {
                assert(self.parts@[i as int]@ == self@.segments[i as int]);
                assert(self@.segments.take(i + 1).drop_last() =~= done);
                assert(self@.segments.take(i + 1).last() == self@.segments[i as int]);
                if i == 0 {
                    assert(join_segs(done) =~= Seq::<char>::empty());
                    assert(out@ =~= lead + join_segs(self@.segments.take(i + 1)));
                } else {
                    assert(join_segs(self@.segments.take(i + 1)) == join_segs(done) + seq!['/']
                        + self@.segments[i as int]);
                    assert(out@ =~= lead + join_segs(self@.segments.take(i + 1)));
                }
            }
            i = i + 1;
        }
        proof {
            assert(self@.segments.take(self.parts@.len() as int) =~= self@.segments);
        }
        if self.dir && self.parts.len() > 0 {
            out.append("/");
        }
        proof {
            assert(out@ =~= string_of(self@));
        }
        out
    }

    /// Whether the path was constructed as rooted.
    pub fn is_absolute(&self) -> (r: bool)
        ensures
            r == self@.absolute,
    {
        self.absolute
    }

    /// Whether the path denotes a directory prefix.
    pub fn is_dir_prefix(&self) -> (r: bool)
        ensures
            r == self@.dir,
    {
        self.dir
    }

    /// Whether the path has no segments.
    pub fn is_empty(&self) -> (r: bool)
        ensures
            r == (self@.segments.len() == 0),
    {
        self.parts.len() == 0
    }

    /// Whether the first segment looks like a platform drive designator.
    pub fn is_windows(&self) -> (r: bool)
        requires
            self@.wf(),
        ensures
            r == (self@.segments.len() > 0 && has_drive_prefix(self@.segments[0])),
    {
        if self.parts.len() == 0 {
            false
        } else {
            let first: &String = &self.parts[0];
            str_has_drive_prefix(first.as_str())
        }
    }

    /// The number of segments.
    pub fn part_count(&self) -> (r: usize)
        ensures
            r == self@.segments.len(),
    {
        self.parts.len()
    }

    /// Read access to the segments.
    pub fn parts(&self) -> (r: &Vec<String>)
        ensures
            segs_view(r@) == self@.segments,
    {
        &self.parts
    }

    /// Appends one segment; the result no longer denotes a directory prefix.
    pub fn push_part(&mut self, part: &str)
        requires
            old(self)@.wf(),
            part@.len() > 0,
            !part@.contains('/'),
        ensures
            final(self)@ =~= (PathModel {
                absolute: old(self)@.absolute,
                dir: false,
                segments: old(self)@.segments.push(part@),
            }),
            final(self)@.wf(),
    {
        let owned = part.to_owned();
        let ghost ow = owned;
        self.parts.push(owned);
        self.dir = false;
        proof {
            assert(self.parts@ == old(self).parts@.push(ow));
            assert forall|i: int| 0 <= i < self@.segments.len() implies seg_wf(
                #[trigger] self@.segments[i],
            ) by {
                assert(self@.segments[i] == self.parts@[i]@);
                if i < old(self)@.segments.len() {
                    assert(self.parts@[i] == old(self).parts@[i]);
                    assert(old(self)@.segments[i] == old(self).parts@[i]@);
                } else {
                    assert(self.parts@[i] == ow);
                }
            }
            assert(self@.segments =~= old(self)@.segments.push(part@));
        }
    }

    /// Marks the path as a directory prefix.
    pub fn make_dir_prefix(&mut self)
        requires
            old(self)@.wf(),
        ensures
            final(self)@ =~= (PathModel { dir: true, ..old(self)@ }),
            final(self)@.wf(),
    {
        self.dir = true;
    }

    /// Removes the last component. On a directory prefix with segments the
    /// trailing separator is what goes first; otherwise the last segment is
    /// dropped. A path emptied this way degrades to the root path.
    pub fn pop_part(&mut self)
        requires
            old(self)@.wf(),
        ensures
            final(self)@.wf(),
            old(self)@.dir && old(self)@.segments.len() > 0 ==> final(self)@ =~= (PathModel {
                dir: false,
                ..old(self)@
            }),
            !old(self)@.dir && old(self)@.segments.len() > 1 ==> final(self)@ =~= (PathModel {
                segments: old(self)@.segments.drop_last(),
                ..old(self)@
            }),
            !old(self)@.dir && old(self)@.segments.len() == 1 ==> final(self)@ =~= (PathModel {
                dir: true,
                segments: Seq::empty(),
                ..old(self)@
            }),
            old(self)@.segments.len() == 0 ==> final(self)@ =~= old(self)@,
    {
        if self.dir && self.parts.len() > 0 {
            self.dir = false;
        } else if self.parts.len() > 0 {
            self.parts.pop();
            if self.parts.len() == 0 {
                self.dir = true;
            }
            proof {
                assert forall|i: int| 0 <= i < self@.segments.len() implies seg_wf(
                    #[trigger] self@.segments[i],
                ) by {
                    assert(self@.segments[i] == self.parts@[i]@);
                    assert(self.parts@[i] == old(self).parts@[i]);
                    assert(old(self)@.segments[i] == old(self).parts@[i]@);
                }
                assert(self@.segments =~= old(self)@.segments.drop_last());
            }
        }
    }

    /// Removes and returns the first segment (used to peel off a bucket or
    /// container name). A path emptied this way degrades to the root path.
    pub fn shift_part(&mut self) -> (r: Option<String>)
        requires
            old(self)@.wf(),
        ensures
            final(self)@.wf(),
            old(self)@.segments.len() == 0 ==> r is None && final(self)@ =~= old(self)@,
            old(self)@.segments.len() > 0 ==> {
                &&& r matches Some(s) && s@ == old(self)@.segments[0]
                &&& final(self)@ =~= (PathModel {
                    absolute: old(self)@.absolute,
                    dir: old(self)@.dir || old(self)@.segments.len() == 1,
                    segments: old(self)@.segments.drop_first(),
                })
            },
    {
        if self.parts.len() == 0 {
            None
        } else {
            let s = self.parts.remove(0);
            if self.parts.len() == 0 {
                self.dir = true;
            }
            proof {
                assert forall|i: int| 0 <= i < self@.segments.len() implies seg_wf(
                    #[trigger] self@.segments[i],
                ) by {
                    assert(self@.segments[i] == self.parts@[i]@);
                    assert(self.parts@[i] == old(self).parts@[i + 1]);
                    assert(old(self)@.segments[i + 1] == old(self).parts@[i + 1]@);
                }
                assert(self@.segments =~= old(self)@.segments.drop_first());
            }
            Some(s)
        }
    }

    /// Re-inserts a segment at the front; the inverse of
    /// [`shift_part`](Self::shift_part).
    pub fn unshift_part(&mut self, part: &str)
        requires
            old(self)@.wf(),
            part@.len() > 0,
            !part@.contains('/'),
        ensures
            final(self)@ =~= (PathModel {
                absolute: old(self)@.absolute,
                dir: old(self)@.dir,
                segments: seq![part@] + old(self)@.segments,
            }),
            final(self)@.wf(),
    {
        let owned = part.to_owned();
        let ghost ow = owned;
        self.parts.insert(0, owned);
        proof {
            assert(self.parts@ == old(self).parts@.insert(0, ow));
            assert forall|i: int| 0 <= i < self@.segments.len() implies seg_wf(
                #[trigger] self@.segments[i],
            ) by {
                assert(self@.segments[i] == self.parts@[i]@);
                if i == 0 {
                    assert(self.parts@[i] == ow);
                } else {
                    assert(self.parts@[i] == old(self).parts@[i - 1]);
                    assert(old(self)@.segments[i - 1] == old(self).parts@[i - 1]@);
                }
            }
            assert(self@.segments =~= seq![part@] + old(self)@.segments);
        }
    }

    /// Joins two paths: the segments concatenated; the directory flag of the
    /// right path; the rooted flag of the left one unless the left path is
    /// the bare relative root.
    pub fn join(&self, other: &ObjectPath) -> (r: ObjectPath)
        requires
            self@.wf(),
            other@.wf(),
        ensures
            r@ =~= (PathModel {
                absolute: if self@.segments.len() > 0 || self@.absolute {
                    self@.absolute
                } else {
                    other@.absolute
                },
                dir: other@.dir,
                segments: self@.segments + other@.segments,
            }),
            r@.wf(),
    {
        let absolute = if self.parts.len() > 0 || self.absolute {
            self.absolute
        } else {
            other.absolute
        };
        let mut parts: Vec<String> = Vec::new();
        let mut i: usize = 0;
        while i < self.parts.len()
            invariant
                i <= self.parts.len(),
                parts@ =~= self.parts@.take(i as int),
            decreases self.parts.len() - i,
        {
            parts.push(self.parts[i].clone());
            i = i + 1;
        }
        let mut j: usize = 0;
        while j < other.parts.len()
            invariant
                j <= other.parts.len(),
                parts@ =~= self.parts@ + other.parts@.take(j as int),
            decreases other.parts.len() - j,
        {
            parts.push(other.parts[j].clone());
            j = j + 1;
        }
        proof {
            assert(parts@ =~= self.parts@ + other.parts@);
            assert forall|k: int| 0 <= k < parts@.len() implies #[trigger] segs_view(parts@)[k]
                == (self@.segments + other@.segments)[k] && seg_wf(segs_view(parts@)[k]) by {
                assert(segs_view(parts@)[k] == parts@[k]@);
                if k < self.parts@.len() {
                    assert(parts@[k] == self.parts@[k]);
                    assert(self@.segments[k] == self.parts@[k]@);
                    assert(seg_wf(self@.segments[k]));
                } else {
                    assert(parts@[k] == other.parts@[k - self.parts@.len()]);
                    assert(other@.segments[k - self.parts@.len()] == other.parts@[k
                        - self.parts@.len()]@);
                    assert(seg_wf(other@.segments[k - self.parts@.len()]));
                }
            }
            assert(segs_view(parts@) =~= self@.segments + other@.segments);
        }
        ObjectPath { absolute, dir: other.dir, parts }
    }

    /// An owned copy with the same value.
    pub fn duplicate(&self) -> (r: ObjectPath)
        ensures
            r@ == self@,
    {
        let mut parts: Vec<String> = Vec::new();
        let mut i: usize = 0;
        while i < self.parts.len()
            invariant
                i <= self.parts.len(),
                parts@ =~= self.parts@.take(i as int),
            decreases self.parts.len() - i,
        {
            parts.push(self.parts[i].clone());
            i = i + 1;
        }
        proof {
            assert(parts@ =~= self.parts@);
            assert(segs_view(parts@) =~= segs_view(self.parts@));
        }
        ObjectPath { absolute: self.absolute, dir: self.dir, parts }
    }

    /// Positional prefix test; see [`path_starts_with`].
    pub fn starts_with(&self, prefix: &ObjectPath) -> (r: bool)
        requires
            self@.wf(),
            prefix@.wf(),
        ensures
            r == path_starts_with(self@, prefix@),
    {
        if prefix.parts.len() > self.parts.len() {
            return false;
        }
        if prefix.parts.len() == self.parts.len() && self.dir != prefix.dir {
            return false;
        }
        let mut i: usize = 0;
        while i < prefix.parts.len()
            invariant
                i <= prefix.parts.len() <= self.parts.len(),
                forall|k: int| 0 <= k < i ==> self@.segments[k] == prefix@.segments[k],
            decreases prefix.parts.len() - i,
        {
            proof {
                assert(self@.segments[i as int] == self.parts@[i as int]@);
                assert(prefix@.segments[i as int] == prefix.parts@[i as int]@);
            }
            if !(self.parts[i] == prefix.parts[i]) {
                proof {
                    assert(self@.segments.take(prefix@.segments.len() as int)[i as int]
                        == self@.segments[i as int]);
                }
                return false;
            }
            i = i + 1;
        }
        proof {
            assert(prefix@.segments =~= self@.segments.take(prefix@.segments.len() as int));
        }
        true
    }
}

/// Reading a separator-free chunk moves it wholesale into the pending
/// segment.
proof fn lemma_segs_rec_chunk(a: Seq<char>, b: Seq<char>, cur: Seq<char>)
    requires
        !a.contains('/'),
    ensures
        segs_rec(a + b, cur) == segs_rec(b, cur + a),
    decreases a.len(),
{
    if a.len() == 0 {
        assert(a + b =~= b);
        assert(cur + a =~= cur);
    } else {
        assert((a + b)[0] == a[0]);
        assert(a[0] != '/');
        assert((a + b).drop_first() =~= a.drop_first() + b);
        assert(!a.drop_first().contains('/')) by {
            assert forall|k: int| 0 <= k < a.drop_first().len() implies a.drop_first()[k]
                != '/' by {
                assert(a.drop_first()[k] == a[k + 1]);
            }
        }
        lemma_segs_rec_chunk(a.drop_first(), b, cur.push(a[0]));
        assert(cur.push(a[0]) + a.drop_first() =~= cur + a);
    }
}

/// A trailing separator adds no chunk.
proof fn lemma_segs_trailing(s: Seq<char>, cur: Seq<char>)
    ensures
        segs_rec(s + seq!['/'], cur) == segs_rec(s, cur),
    decreases s.len(),
{
    if s.len() == 0 {
        assert(s + seq!['/'] =~= seq!['/']);
        assert(seq!['/'].drop_first() =~= Seq::<char>::empty());
        assert(seq!['/'][0] == '/');
        assert(segs_rec(seq!['/'], cur) == flush(cur) + segs_rec(
            Seq::<char>::empty(),
            Seq::<char>::empty(),
        ));
        assert(segs_rec(Seq::<char>::empty(), Seq::<char>::empty()) == flush(
            Seq::<char>::empty(),
        ));
        assert(flush(Seq::<char>::empty()) =~= Seq::<Seq<char>>::empty());
        assert(flush(cur) + Seq::<Seq<char>>::empty() =~= flush(cur));
    } else {
        assert((s + seq!['/'])[0] == s[0]);
        assert((s + seq!['/']).drop_first() =~= s.drop_first() + seq!['/']);
        if s[0] == '/' {
            lemma_segs_trailing(s.drop_first(), Seq::empty());
        } else {
            lemma_segs_trailing(s.drop_first(), cur.push(s[0]));
        }
    }
}

/// [`join_segs`] decomposed at the front instead of the back.
proof fn lemma_join_front(segs: Seq<Seq<char>>)
    requires
        segs.len() >= 2,
    ensures
        join_segs(segs) == segs[0] + seq!['/'] + join_segs(segs.drop_first()),
    decreases segs.len(),
{
    if segs.len() == 2 {
        assert(segs.drop_last() =~= seq![segs[0]]);
        assert(segs.drop_first() =~= seq![segs[1]]);
        assert(join_segs(seq![segs[0]]) == segs[0]);
        assert(join_segs(seq![segs[1]]) == segs[1]);
        assert(segs.last() == segs[1]);
    } else {
        let dl = segs.drop_last();
        let df = segs.drop_first();
        lemma_join_front(dl);
        assert(dl[0] == segs[0]);
        assert(dl.drop_first() =~= df.drop_last());
        assert(df.last() == segs.last());
        assert(join_segs(df) == join_segs(df.drop_last()) + seq!['/'] + df.last());
        assert((segs[0] + seq!['/'] + join_segs(df.drop_last())) + seq!['/'] + segs.last() =~= segs[
            0
        ] + seq!['/'] + (join_segs(df.drop_last()) + seq!['/'] + segs.last()));
    }
}

/// Splitting the joined string recovers exactly the segments.
proof fn lemma_segs_of_join(segs: Seq<Seq<char>>)
    requires
        forall|i: int| 0 <= i < segs.len() ==> seg_wf(#[trigger] segs[i]),
    ensures
        segs_of(join_segs(segs)) == segs,
    decreases segs.len(),
{
    if segs.len() == 0 {
        assert(segs_of(Seq::<char>::empty()) =~= Seq::<Seq<char>>::empty());
        assert(segs =~= Seq::<Seq<char>>::empty());
    } else if segs.len() == 1 {
        lemma_segs_rec_chunk(segs[0], Seq::empty(), Seq::empty());
        assert(segs[0] + Seq::<char>::empty() =~= segs[0]);
        assert(Seq::<char>::empty() + segs[0] =~= segs[0]);
        assert(flush(segs[0]) =~= seq![segs[0]]);
        assert(segs =~= seq![segs[0]]);
    } else {
        lemma_join_front(segs);
        let df = segs.drop_first();
        let tail = seq!['/'] + join_segs(df);
        assert(join_segs(segs) =~= segs[0] + tail);
        lemma_segs_rec_chunk(segs[0], tail, Seq::empty());
        assert(Seq::<char>::empty() + segs[0] =~= segs[0]);
        assert(tail[0] == '/');
        assert(tail.drop_first() =~= join_segs(df));
        assert(forall|i: int| 0 <= i < df.len() ==> seg_wf(#[trigger] df[i])) by {
            assert forall|i: int| 0 <= i < df.len() implies seg_wf(#[trigger] df[i]) by {
                assert(df[i] == segs[i + 1]);
            }
        }
        lemma_segs_of_join(df);
        assert(flush(segs[0]) =~= seq![segs[0]]);
        assert(segs_of(join_segs(segs)) =~= seq![segs[0]] + df);
        assert(seq![segs[0]] + df =~= segs);
    }
}

/// The string round trip: printing any well-formed path value and parsing
/// the result yields the same value back.
pub proof fn lemma_string_round_trip(m: PathModel)
    requires
        m.wf(),
    ensures
        parsed_model(string_of(m)) == m,
{
    let core = join_segs(m.segments);
    lemma_segs_of_join(m.segments);
    let trail: Seq<char> = if m.dir && m.segments.len() > 0 {
        seq!['/']
    } else {
        Seq::empty()
    };
    let with_trail = core + trail;
    if m.dir && m.segments.len() > 0 {
        lemma_segs_trailing(core, Seq::empty());
    } else {
        assert(with_trail =~= core);
    }
    assert(segs_of(with_trail) == m.segments);
    let full = string_of(m);
    // The core is non-empty and opens and closes without a separator
    // whenever there are segments.
    if m.segments.len() > 0 {
        assert(seg_wf(m.segments[0]));
        assert(seg_wf(m.segments.last()));
        if m.segments.len() >= 2 {
            lemma_join_front(m.segments);
            assert(core[0] == m.segments[0][0]);
            assert(core == join_segs(m.segments.drop_last()) + seq!['/'] + m.segments.last());
            assert(core.last() == m.segments.last().last());
        } else {
            assert(core == m.segments[0]);
        }
        assert(core.len() > 0);
        assert(core[0] != '/');
        assert(core.last() != '/');
    } else {
        assert(core =~= Seq::<char>::empty());
        assert(with_trail =~= Seq::<char>::empty());
    }
    if m.absolute {
        assert(full =~= seq!['/'] + with_trail);
        assert(full[0] == '/');
        assert(full.drop_first() =~= with_trail);
        assert(flush(Seq::<char>::empty()) =~= Seq::<Seq<char>>::empty());
        assert(segs_of(full) =~= Seq::<Seq<char>>::empty() + segs_of(with_trail));
        assert(Seq::<Seq<char>>::empty() + segs_of(with_trail) =~= segs_of(with_trail));
    } else {
        assert(full =~= with_trail);
    }
    assert(segs_of(full) == m.segments);
    // The rooted flag is recovered from the first character.
    if !m.absolute {
        if m.segments.len() > 0 {
            assert(full[0] == core[0]);
        }
    }
    // The directory flag is recovered from the last character.
    if m.segments.len() > 0 {
        if m.dir {
            assert(full.last() == '/');
            assert(full.len() > 0);
            assert(full[full.len() - 1] == '/');
        } else {
            assert(full =~= (if m.absolute { seq!['/'] } else { Seq::<char>::empty() }) + core);
            assert(full.last() == core.last());
            assert(full[full.len() - 1] != '/');
        }
    }
    assert(parsed_model(full) =~= m);
}

/// Whether a string slice opens with a drive designator or a backslash.
fn str_has_drive_prefix(s: &str) -> (r: bool)
    ensures
        r == has_drive_prefix(s@),
{
    let n = s.unicode_len();
    if n >= 1 {
        let c0 = s.get_char(0);
        if c0 == '\\' {
            return true;
        }
        if n >= 2 {
            let c1 = s.get_char(1);
            return char_is_ascii_letter(c0) && c1 == ':';
        }
    }
    false
}

fn char_is_ascii_letter(c: char) -> (r: bool)
    ensures
        r == is_ascii_letter(c),
{
    ('a' <= c && c <= 'z') || ('A' <= c && c <= 'Z')
}

} // verus!
