//! Reading meshes in the Wavefront OBJ text format.
//!
//! The format is multi-indexed: one corner of a face can name different
//! indices for its position, texture coordinate, and normal. [`Obj`] holds
//! that raw form; [`Obj::model`] deduplicates it into a single-indexed
//! [`Model`].
//!
//! Coordinates are held in fx units: the text `1.5` becomes
//! `3 * FX_ONE / 2`. Plain decimal notation with an optional sign and
//! fraction is accepted; exponent notation is not.

use vstd::prelude::*;
use crate::vec::{Vec2, Vec3, VEC_LIMIT};
use crate::model::{Model, Vert, Vertex};
use crate::color::FX_ONE;

verus! {

/// What went wrong while reading an OBJ file; each variant carries the
/// 1-based line number, with 0 standing for an unknown line.
#[derive(Debug, PartialEq, Eq, Structural, Clone, Copy)]
pub enum Error {
    /// A coordinate was not a plain decimal number this reader accepts.
    FloatParse(usize),
    /// An index was not a well-formed integer.
    IntParse(usize),
    /// A record was malformed.
    ObjParse(usize),
}

/// One corner of a face: indices into the position, texture, and normal
/// lists.
#[derive(Debug, PartialEq, Eq, Hash, Clone, Copy)]
pub struct VertexIndex {
    pub vertex: i32,
    pub texture: Option<i32>,
    pub normal: Option<i32>,
}

/// The byte is an ASCII digit.
pub open spec fn is_digit(b: u8) -> bool {
    48 <= b <= 57
}

/// Every byte of the sequence is an ASCII digit.
pub open spec fn all_digits(s: Seq<u8>) -> bool {
    forall|i: int| 0 <= i < s.len() ==> is_digit(#[trigger] s[i])
}

/// The value of a sequence of ASCII digits, most significant first.
pub open spec fn digits_val(s: Seq<u8>) -> int
    decreases s.len(),
{
    if s.len() == 0 {
        0
    } else {
        digits_val(s.drop_last()) * 10 + (s.last() - 48)
    }
}

/// The value of a digit sequence is never negative.
pub proof fn lemma_digits_val_nonneg(s: Seq<u8>)
    requires
        all_digits(s),
    ensures
        digits_val(s) >= 0,
    decreases s.len(),
{
    if s.len() > 0 {
        assert(all_digits(s.drop_last())) by {
            assert(forall|i: int|
                0 <= i < s.len() - 1 ==> s.drop_last()[i] == #[trigger] s[i]);
        };
        lemma_digits_val_nonneg(s.drop_last());
    }
}

/// Extending a digit sequence to the right never shrinks its value.
pub proof fn lemma_digits_prefix_le(s: Seq<u8>, i: int)
    requires
        all_digits(s),
        0 <= i <= s.len(),
    ensures
        digits_val(s.subrange(0, i)) <= digits_val(s),
    decreases s.len() - i,
{
    if i == s.len() {
        assert(s.subrange(0, i) =~= s);
    } else {
        lemma_digits_prefix_le(s, i + 1);
        let q = s.subrange(0, i);
        let p = s.subrange(0, i + 1);
        assert(all_digits(q)) by {
            assert(forall|k: int| 0 <= k < q.len() ==> q[k] == #[trigger] s[k]);
        };
        lemma_digits_val_nonneg(q);
        assert(p.drop_last() =~= q);
        assert(p.last() == s[i] && is_digit(s[i]));
        assert(digits_val(p) == digits_val(q) * 10 + (s[i] - 48));
    }
}

/// The sign-and-digits shape that an integer token must have, as Rust's
/// integer parsing accepts it: an optional `+` or `-`, then one or more
/// digits.
pub open spec fn int_token_wf(s: Seq<u8>) -> bool {
    let body = if s.len() > 0 && (s[0] == 43 || s[0] == 45) {
        s.subrange(1, s.len() as int)
    } else {
        s
    };
    body.len() >= 1 && all_digits(body)
}

/// The integer value of a well-formed integer token.
pub open spec fn int_token_val(s: Seq<u8>) -> int {
    if s.len() > 0 && s[0] == 45 {
        -digits_val(s.subrange(1, s.len() as int))
    } else if s.len() > 0 && s[0] == 43 {
        digits_val(s.subrange(1, s.len() as int))
    } else {
        digits_val(s)
    }
}

/// Parses an integer token into an `i32`: exactly the well-formed tokens
/// whose value fits succeed.
pub fn parse_i32(s: &[u8]) -> (r: Result<i32, ()>)
    ensures
        int_token_wf(s@) && i32::MIN <= int_token_val(s@) <= i32::MAX ==> r == Ok::<i32, ()>(
            int_token_val(s@) as i32,
        ),
        !(int_token_wf(s@) && i32::MIN <= int_token_val(s@) <= i32::MAX) ==> r == Err::<i32, ()>(
            (),
        ),
{
    let n = s.len();
    if n == 0 {
        return Err(());
    }
    let first = s[0];
    let neg = first == 45;
    let start: usize = if first == 43 || first == 45 {
        1
    } else {
        0
    };
    if n == start {
        return Err(());
    }
    let ghost body = s@.subrange(start as int, n as int);
    let mut acc: i64 = 0;
    let mut i: usize = start;
    while i < n
        invariant
            start <= i <= n,
            1 <= n == s@.len(),
            start == 0 || start == 1,
            (start == 1) == (s@[0] == 43 || s@[0] == 45),
            neg == (s@[0] == 45),
            body == s@.subrange(start as int, n as int),
            n - start >= 1,
            all_digits(s@.subrange(start as int, i as int)),
            acc == digits_val(s@.subrange(start as int, i as int)),
            0 <= acc <= 0x8000_0000,
        decreases n - i,
    {
        let b = s[i];
        if b < 48 || b > 57 {
            proof {
                assert(s@.subrange(0, n as int) =~= s@);
                assert(body[i - start] == s@[i as int]);
                assert(!is_digit(body[i - start]));
                assert(!all_digits(body));
                assert(!int_token_wf(s@));
            }
            return Err(());
        }
        proof {
            assert(s@.subrange(start as int, i as int + 1).drop_last() =~= s@.subrange(
                start as int,
                i as int,
            ));
        }
        acc = acc * 10 + (b - 48) as i64;
        i = i + 1;
        if acc > 0x8000_0000 {
            proof {
                assert(s@.subrange(0, n as int) =~= s@);
                assert(s@.subrange(start as int, i as int) =~= body.subrange(0, i - start));
                if all_digits(body) {
                    lemma_digits_prefix_le(body, i - start);
                    assert(digits_val(body) >= acc > 0x8000_0000);
                    assert(int_token_val(s@) > 0x8000_0000 || int_token_val(s@)
                        < -0x8000_0000) by {
                        if s@[0] == 45 {
                            assert(int_token_val(s@) == -digits_val(body));
                        } else if s@[0] == 43 {
                            assert(int_token_val(s@) == digits_val(body));
                        } else {
                            assert(int_token_val(s@) == digits_val(s@) == digits_val(body));
                        }
                    };
                } else {
                    assert(!int_token_wf(s@));
                }
            }
            return Err(());
        }
        proof {
            assert(forall|k: int|
                0 <= k < i - start ==> s@.subrange(start as int, i as int)[k] == #[trigger] s@.subrange(
                    start as int,
                    i as int,
                )[k]);
        }
    }
    proof {
        assert(s@.subrange(start as int, n as int) == body);
        assert(s@.subrange(0, n as int) =~= s@);
    }
    if neg {
        if acc > 0x8000_0000 {
            return Err(());
        }
        Ok((-acc) as i32)
    } else {
        if acc > 0x7fff_ffff {
            return Err(());
        }
        Ok(acc as i32)
    }
}

/// The index of the first `/` at or after `from`, or the length if there
/// is none.
pub open spec fn find_slash(s: Seq<u8>, from: int) -> int
    decreases s.len() - from,
{
    if from < 0 || from >= s.len() {
        s.len() as int
    } else if s[from] == 47 {
        from
    } else {
        find_slash(s, from + 1)
    }
}

/// `find_slash` lands on a slash or the end, and skips no slash.
pub proof fn lemma_find_slash(s: Seq<u8>, from: int)
    requires
        0 <= from <= s.len(),
    ensures
        from <= find_slash(s, from) <= s.len(),
        find_slash(s, from) < s.len() ==> s[find_slash(s, from)] == 47,
        forall|k: int| from <= k < find_slash(s, from) ==> s[k] != 47,
    decreases s.len() - from,
{
    if from < s.len() && s[from] != 47 {
        lemma_find_slash(s, from + 1);
    }
}

/// What parsing one face corner must yield. The corner text is split at
/// its first two slashes; a third slash and anything after it is ignored.
/// The four accepted shapes are `v`, `v/t`, `v//n`, and `v/t/n`.
pub open spec fn spec_parse_vertex(s: Seq<u8>) -> Result<VertexIndex, ()> {
    let i1 = find_slash(s, 0);
    let p0 = s.subrange(0, i1);
    if !(int_token_wf(p0) && i32::MIN <= int_token_val(p0) <= i32::MAX) {
        Err(())
    } else {
        let v = int_token_val(p0) as i32;
        if i1 == s.len() {
            Ok(VertexIndex { vertex: v, texture: None, normal: None })
        } else {
            let i2 = find_slash(s, i1 + 1);
            let p1 = s.subrange(i1 + 1, i2);
            if i2 == s.len() {
                if int_token_wf(p1) && i32::MIN <= int_token_val(p1) <= i32::MAX {
                    Ok(
                        VertexIndex {
                            vertex: v,
                            texture: Some(int_token_val(p1) as i32),
                            normal: None,
                        },
                    )
                } else {
                    Err(())
                }
            } else {
                let i3 = find_slash(s, i2 + 1);
                let p2 = s.subrange(i2 + 1, i3);
                if !(int_token_wf(p2) && i32::MIN <= int_token_val(p2) <= i32::MAX) {
                    Err(())
                } else {
                    let nv = Some(int_token_val(p2) as i32);
                    if p1.len() == 0 {
                        Ok(VertexIndex { vertex: v, texture: None, normal: nv })
                    } else {
                        if int_token_wf(p1) && i32::MIN <= int_token_val(p1) <= i32::MAX {
                            Ok(
                                VertexIndex {
                                    vertex: v,
                                    texture: Some(int_token_val(p1) as i32),
                                    normal: nv,
                                },
                            )
                        } else {
                            Err(())
                        }
                    }
                }
            }
        }
    }
}

/// Finds the first `/` at or after `from` in a byte slice.
fn find_slash_at(s: &[u8], from: usize) -> (r: usize)
    requires
        from <= s@.len(),
    ensures
        r == find_slash(s@, from as int),
        from <= r <= s@.len(),
{
    let n = s.len();
    let mut i = from;
    while i < n
        invariant
            from <= i <= n,
            n == s@.len(),
            find_slash(s@, from as int) == find_slash(s@, i as int),
            forall|k: int| from <= k < i ==> s@[k] != 47,
        decreases n - i,
    {
        if s[i] == 47 {
            return i;
        }
        i = i + 1;
    }
    n
}

/// Parses one face-corner chunk such as `7`, `7/3`, `7//2`, or `7/3/2`
/// into its indices.
pub fn parse_vertex(s: &[u8]) -> (r: Result<VertexIndex, Error>)
    ensures
        match spec_parse_vertex(s@) {
            Ok(vi) => r == Ok::<VertexIndex, Error>(vi),
            Err(()) => r == Err::<VertexIndex, Error>(Error::IntParse(0)),
        },
{
    let n = s.len();
    let i1 = find_slash_at(s, 0);
    let p0 = vstd::slice::slice_subrange(s, 0, i1);
    let v = match parse_i32(p0) {
        Ok(v) => v,
        Err(()) => {
            return Err(Error::IntParse(0));
        },
    };
    if i1 == n {
        return Ok(VertexIndex { vertex: v, texture: None, normal: None });
    }
    let i2 = find_slash_at(s, i1 + 1);
    let p1 = vstd::slice::slice_subrange(s, i1 + 1, i2);
    if i2 == n {
        return match parse_i32(p1) {
            Ok(t) => Ok(VertexIndex { vertex: v, texture: Some(t), normal: None }),
            Err(()) => Err(Error::IntParse(0)),
        };
    }
    let i3 = find_slash_at(s, i2 + 1);
    let p2 = vstd::slice::slice_subrange(s, i2 + 1, i3);
    let nv = match parse_i32(p2) {
        Ok(nv) => nv,
        Err(()) => {
            return Err(Error::IntParse(0));
        },
    };
    if p1.len() == 0 {
        Ok(VertexIndex { vertex: v, texture: None, normal: Some(nv) })
    } else {
        match parse_i32(p1) {
            Ok(t) => Ok(VertexIndex { vertex: v, texture: Some(t), normal: Some(nv) }),
            Err(()) => Err(Error::IntParse(0)),
        }
    }
}

/// What normalizing one OBJ index must yield: indices are 1-based, so
/// positive values drop by one; negative values count back from the end of
/// the list parsed so far; zero, and a negative value that reaches before
/// the start, are rejected.
pub open spec fn spec_fix(val: int, reference: int) -> Option<int> {
    if val == 0 {
        None
    } else if val < 0 {
        if reference + val < 0 {
            None
        } else {
            Some(reference + val)
        }
    } else {
        Some(val - 1)
    }
}

/// What normalizing a whole corner must yield: every present index is
/// fixed against its own list length, and any failure rejects the corner.
pub open spec fn spec_normalize(i: VertexIndex, vert: int, tex: int, norm: int) -> Option<
    VertexIndex,
> {
    match spec_fix(i.vertex as int, vert) {
        None => None,
        Some(v) => {
            let t = match i.texture {
                Some(tv) => match spec_fix(tv as int, tex) {
                    None => Option::<Option<i32>>::None,
                    Some(f) => Some(Some(f as i32)),
                },
                None => Some(None),
            };
            let nm = match i.normal {
                Some(nv) => match spec_fix(nv as int, norm) {
                    None => Option::<Option<i32>>::None,
                    Some(f) => Some(Some(f as i32)),
                },
                None => Some(None),
            };
            match (t, nm) {
                (Some(t), Some(nm)) => Some(
                    VertexIndex { vertex: v as i32, texture: t, normal: nm },
                ),
                _ => None,
            }
        },
    }
}

fn fix(val: i32, reference: usize) -> (r: Result<i32, Error>)
    requires
        reference <= i32::MAX,
    ensures
        match spec_fix(val as int, reference as int) {
            Some(v) => r == Ok::<i32, Error>(v as i32),
            None => r == Err::<i32, Error>(Error::ObjParse(0)),
        },
{
    if val == 0 {
        Err(Error::ObjParse(0))
    } else if val < 0 {
        let fixed: i64 = reference as i64 + val as i64;
        if fixed < 0 {
            Err(Error::ObjParse(0))
        } else {
            Ok(fixed as i32)
        }
    } else {
        Ok(val - 1)
    }
}

/// Turns the 1-based, possibly negative-relative indices of one corner
/// into plain 0-based indices, as `spec_normalize` says.
pub fn normalize_indices(i: VertexIndex, vert: usize, tex: usize, norm: usize) -> (r: Result<
    VertexIndex,
    Error,
>)
    requires
        vert <= i32::MAX,
        tex <= i32::MAX,
        norm <= i32::MAX,
    ensures
        match spec_normalize(i, vert as int, tex as int, norm as int) {
            Some(o) => r == Ok::<VertexIndex, Error>(o),
            None => r == Err::<VertexIndex, Error>(Error::ObjParse(0)),
        },
{
    let vertex = match fix(i.vertex, vert) {
        Ok(v) => v,
        Err(e) => {
            return Err(e);
        },
    };
    let texture = match i.texture {
        Some(t) => match fix(t, tex) {
            Ok(f) => Some(f),
            Err(e) => {
                return Err(e);
            },
        },
        None => None,
    };
    let normal = match i.normal {
        Some(nv) => match fix(nv, norm) {
            Ok(f) => Some(f),
            Err(e) => {
                return Err(e);
            },
        },
        None => None,
    };
    Ok(VertexIndex { vertex, texture, normal })
}

/// Ten to the `k`-th power.
pub open spec fn pow10(k: int) -> int
    decreases k,
{
    if k <= 0 {
        1
    } else {
        10 * pow10(k - 1)
    }
}

/// The index of the first `.` at or after `from`, or the length if there
/// is none.
pub open spec fn find_dot(s: Seq<u8>, from: int) -> int
    decreases s.len() - from,
{
    if from < 0 || from >= s.len() {
        s.len() as int
    } else if s[from] == 46 {
        from
    } else {
        find_dot(s, from + 1)
    }
}

/// The shape a decimal coordinate token must have: an optional sign, then
/// digits with at most one point among them, and at least one digit.
pub open spec fn fx_token_wf(s: Seq<u8>) -> bool {
    let body = if s.len() > 0 && (s[0] == 43 || s[0] == 45) {
        s.subrange(1, s.len() as int)
    } else {
        s
    };
    let dot = find_dot(body, 0);
    let ip = body.subrange(0, dot);
    let fp = if dot < body.len() {
        body.subrange(dot + 1, body.len() as int)
    } else {
        Seq::empty()
    };
    &&& all_digits(ip)
    &&& all_digits(fp)
    &&& ip.len() + fp.len() >= 1
}

/// The fx value of the fraction digits: the first six digits, scaled to fx
/// units and rounded to nearest, halves up.
pub open spec fn frac_fx(fp: Seq<u8>) -> int {
    let f6 = if fp.len() <= 6 {
        fp
    } else {
        fp.subrange(0, 6)
    };
    let p = pow10(f6.len() as int);
    (digits_val(f6) * FX_ONE * 2 + p) / (2 * p)
}

/// The fx value of a well-formed decimal coordinate token.
pub open spec fn fx_token_val(s: Seq<u8>) -> int {
    let body = if s.len() > 0 && (s[0] == 43 || s[0] == 45) {
        s.subrange(1, s.len() as int)
    } else {
        s
    };
    let dot = find_dot(body, 0);
    let ip = body.subrange(0, dot);
    let fp = if dot < body.len() {
        body.subrange(dot + 1, body.len() as int)
    } else {
        Seq::empty()
    };
    let mag = digits_val(ip) * FX_ONE + frac_fx(fp);
    if s.len() > 0 && s[0] == 45 {
        -mag
    } else {
        mag
    }
}

/// Largest whole part a coordinate token may have: keeps every coordinate
/// within `VEC_LIMIT` once scaled to fx units.
pub const FX_IP_LIMIT: i64 = 16383;

/// Finds the first `.` at or after `from` in a byte slice.
fn find_dot_at(s: &[u8], from: usize) -> (r: usize)
    requires
        from <= s@.len(),
    ensures
        r == find_dot(s@, from as int),
        from <= r <= s@.len(),
        r < s@.len() ==> s@[r as int] == 46,
        forall|k: int| from <= k < r ==> s@[k] != 46,
    decreases s@.len() - from,
{
    let n = s.len();
    let mut i = from;
    while i < n
        invariant
            from <= i <= n,
            n == s@.len(),
            find_dot(s@, from as int) == find_dot(s@, i as int),
            forall|k: int| from <= k < i ==> s@[k] != 46,
        decreases n - i,
    {
        if s[i] == 46 {
            return i;
        }
        i = i + 1;
    }
    n
}

/// Parses a run of digits `s[from..to]`, failing on a non-digit and on a
/// value above `limit`.
fn parse_digits(s: &[u8], from: usize, to: usize, limit: i64) -> (r: Result<i64, ()>)
    requires
        from <= to <= s@.len(),
        0 <= limit <= 0x7fff_ffff,
    ensures
        ({
            let part = s@.subrange(from as int, to as int);
            if all_digits(part) && digits_val(part) <= limit {
                r == Ok::<i64, ()>(digits_val(part) as i64) && 0 <= digits_val(part)
            } else {
                r == Err::<i64, ()>(())
            }
        }),
{
    let ghost part = s@.subrange(from as int, to as int);
    let mut acc: i64 = 0;
    let mut i = from;
    while i < to
        invariant
            from <= i <= to <= s@.len(),
            part == s@.subrange(from as int, to as int),
            0 <= limit <= 0x7fff_ffff,
            all_digits(s@.subrange(from as int, i as int)),
            acc == digits_val(s@.subrange(from as int, i as int)),
            0 <= acc <= limit,
        decreases to - i,
    {
        let b = s[i];
        if b < 48 || b > 57 {
            proof {
                assert(part[i - from] == s@[i as int]);
                assert(!all_digits(part));
            }
            return Err(());
        }
        proof {
            assert(s@.subrange(from as int, i as int + 1).drop_last() =~= s@.subrange(
                from as int,
                i as int,
            ));
        }
        acc = acc * 10 + (b - 48) as i64;
        i = i + 1;
        proof {
            assert(s@.subrange(from as int, i as int) =~= part.subrange(0, i - from));
        }
        if acc > limit {
            proof {
                if all_digits(part) {
                    lemma_digits_prefix_le(part, i - from);
                }
            }
            return Err(());
        }
        proof {
            assert(forall|k: int|
                0 <= k < i - from ==> s@.subrange(from as int, i as int)[k] == #[trigger] s@.subrange(
                    from as int,
                    i as int,
                )[k]);
        }
    }
    proof {
        assert(s@.subrange(from as int, to as int) == part);
    }
    Ok(acc)
}

/// Parses a decimal coordinate token into fx units: exactly the
/// well-formed tokens whose whole part is at most `FX_IP_LIMIT` succeed,
/// and the result is `fx_token_val`, which stays within `VEC_LIMIT`.
#[verifier::rlimit(100)]
pub fn parse_fx(s: &[u8]) -> (r: Result<i64, ()>)
    ensures
        ({
            let body = if s@.len() > 0 && (s@[0] == 43 || s@[0] == 45) {
                s@.subrange(1, s@.len() as int)
            } else {
                s@
            };
            let ip = body.subrange(0, find_dot(body, 0));
            if fx_token_wf(s@) && digits_val(ip) <= FX_IP_LIMIT {
                r == Ok::<i64, ()>(fx_token_val(s@) as i64) && -VEC_LIMIT <= fx_token_val(s@)
                    <= VEC_LIMIT
            } else {
                r == Err::<i64, ()>(())
            }
        }),
{
    let n = s.len();
    if n == 0 {
        return Err(());
    }
    let first = s[0];
    let neg = first == 45;
    let start: usize = if first == 43 || first == 45 {
        1
    } else {
        0
    };
    let ghost body = s@.subrange(start as int, n as int);
    proof {
        assert(s@.subrange(0, n as int) =~= s@);
    }
    let dot = find_dot_at(s, start);
    proof {
        assert(find_dot(body, 0) == find_dot(s@, start as int) - start) by {
            lemma_find_dot_shift(s@, start as int, n as int);
        };
        assert(body.subrange(0, dot - start) =~= s@.subrange(start as int, dot as int));
    }
    let ip_val = match parse_digits(s, start, dot, FX_IP_LIMIT) {
        Ok(v) => v,
        Err(()) => {
            return Err(());
        },
    };
    let fp_from: usize = if dot < n {
        dot + 1
    } else {
        n
    };
    let ghost fp = if (dot - start) < body.len() {
        body.subrange(dot - start + 1, body.len() as int)
    } else {
        Seq::<u8>::empty()
    };
    proof {
        assert(fp =~= s@.subrange(fp_from as int, n as int));
    }
    if dot == n && dot == start {
        return Err(());
    }
    if dot < n && dot == start && fp_from == n {
        return Err(());
    }
    let f6_to: usize = if n - fp_from > 6 {
        fp_from + 6
    } else {
        n
    };
    // every fraction digit must be a digit, not only the six that count
    let mut k = f6_to;
    while k < n
        invariant
            f6_to <= k <= n,
            1 <= n == s@.len(),
            start == 0 || start == 1,
            (start == 1) == (s@[0] == 43 || s@[0] == 45),
            body == s@.subrange(start as int, n as int),
            start <= dot <= n,
            find_dot(body, 0) == dot - start,
            fp_from as int == (if dot < n { dot as int + 1 } else { n as int }),
            fp == (if (dot - start) < body.len() { body.subrange(dot - start + 1, body.len() as int) } else { Seq::<u8>::empty() }),
            fp == s@.subrange(fp_from as int, n as int),
            fp_from <= f6_to <= n,
            forall|j: int| f6_to <= j < k ==> is_digit(s@[j]),
        decreases n - k,
    {
        let b = s[k];
        if b < 48 || b > 57 {
            proof {
                assert(fp[k - fp_from] == s@[k as int]);
                assert(!is_digit(fp[k - fp_from]));
                assert(!all_digits(fp));
                let wbody = if s@.len() > 0 && (s@[0] == 43 || s@[0] == 45) {
                    s@.subrange(1, s@.len() as int)
                } else {
                    s@
                };
                assert(wbody =~= body);
                let wdot = find_dot(wbody, 0);
                let wfp = if wdot < wbody.len() {
                    wbody.subrange(wdot + 1, wbody.len() as int)
                } else {
                    Seq::<u8>::empty()
                };
                assert(wfp =~= fp);
                assert(!fx_token_wf(s@));
            }
            return Err(());
        }
        k = k + 1;
    }
    let ghost f6s_pre = s@.subrange(fp_from as int, f6_to as int);
    let f6 = match parse_digits(s, fp_from, f6_to, 999999) {
        Ok(v) => v,
        Err(()) => {
            proof {
                let f6s = s@.subrange(fp_from as int, f6_to as int);
                assert(f6s =~= fp.subrange(0, f6_to - fp_from));
                if all_digits(fp) {
                    assert(all_digits(f6s)) by {
                        assert(forall|j: int|
                            0 <= j < f6s.len() ==> f6s[j] == #[trigger] fp[j]);
                    };
                    lemma_digits_bounded_by_len(f6s);
                }
            }
            return Err(());
        },
    };
    proof {
        lemma_digits_bounded_by_len(f6s_pre);
    }
    let frac: i64 = frac_fx_exec(f6, (f6_to - fp_from) as u32);
    let mag: i64 = ip_val * FX_ONE + frac;
    proof {
        let f6s = s@.subrange(fp_from as int, f6_to as int);
        assert(f6s =~= (if fp.len() <= 6 { fp } else { fp.subrange(0, 6) }));
        assert(all_digits(fp)) by {
            assert(forall|j: int| 0 <= j < fp.len() ==> is_digit(#[trigger] fp[j])) by {
                assert(forall|j: int|
                    0 <= j < fp.len() ==> fp[j] == #[trigger] s@[fp_from + j]);
            };
        };
        assert(fx_token_wf(s@));
        assert(ip_val * FX_ONE <= FX_IP_LIMIT * FX_ONE) by (nonlinear_arith)
            requires
                0 <= ip_val <= FX_IP_LIMIT,
        ;
        assert(ip_val * FX_ONE >= 0) by (nonlinear_arith)
            requires
                ip_val >= 0,
        ;
    }
    if neg {
        Ok(-mag)
    } else {
        Ok(mag)
    }
}

/// Scales up to six fraction digits to fx units, rounding to nearest with
/// halves up.
fn frac_fx_exec(f6: i64, k: u32) -> (r: i64)
    requires
        k <= 6,
        0 <= f6,
        f6 < pow10(k as int),
    ensures
        r == (f6 * FX_ONE * 2 + pow10(k as int)) / (2 * pow10(k as int)),
        0 <= r <= FX_ONE,
{
    let p10: i64 = pow10_exec(k);
    proof {
        lemma_frac_fx_range(f6 as int, p10 as int, k as int);
    }
    (f6 * FX_ONE * 2 + p10) / (2 * p10)
}

/// Executes `pow10` for exponents up to six.
fn pow10_exec(k: u32) -> (r: i64)
    requires
        k <= 6,
    ensures
        r == pow10(k as int),
        1 <= r <= 1000000,
{
    proof {
        assert(pow10(0) == 1);
        assert(pow10(1) == 10);
        assert(pow10(2) == 100);
        assert(pow10(3) == 1000);
        assert(pow10(4) == 10000);
        assert(pow10(5) == 100000);
        assert(pow10(6) == 1000000);
    }
    if k == 0 {
        1
    } else if k == 1 {
        10
    } else if k == 2 {
        100
    } else if k == 3 {
        1000
    } else if k == 4 {
        10000
    } else if k == 5 {
        100000
    } else {
        1000000
    }
}

/// A run of at most six digits is below one million.
proof fn lemma_digits_bounded_by_len(s: Seq<u8>)
    requires
        all_digits(s),
        s.len() <= 6,
    ensures
        digits_val(s) < pow10(s.len() as int),
        digits_val(s) <= 999999,
    decreases s.len(),
{
    if s.len() == 0 {
    } else {
        assert(all_digits(s.drop_last())) by {
            assert(forall|i: int|
                0 <= i < s.len() - 1 ==> s.drop_last()[i] == #[trigger] s[i]);
        };
        lemma_digits_bounded_by_len(s.drop_last());
        assert(pow10(s.len() as int) == 10 * pow10(s.len() - 1));
        assert(pow10(6) == 1000000) by {
            assert(pow10(0) == 1);
            assert(pow10(1) == 10);
            assert(pow10(2) == 100);
            assert(pow10(3) == 1000);
            assert(pow10(4) == 10000);
            assert(pow10(5) == 100000);
        };
        assert(pow10(s.len() as int) <= 1000000) by {
            lemma_pow10_le(s.len() as int, 6);
        };
    }
}

/// `pow10` is monotone.
proof fn lemma_pow10_le(a: int, b: int)
    requires
        0 <= a <= b,
    ensures
        pow10(a) <= pow10(b),
        pow10(a) >= 1,
    decreases b,
{
    if a < b {
        lemma_pow10_le(a, b - 1);
        assert(pow10(b) == 10 * pow10(b - 1));
    } else {
        if a > 0 {
            lemma_pow10_le(a - 1, a - 1);
        }
    }
}

/// The rounded fraction is between zero and one fx unit.
proof fn lemma_frac_fx_range(f6: int, p: int, k: int)
    requires
        0 <= k <= 6,
        p == pow10(k),
        0 <= f6 < p,
    ensures
        0 <= (f6 * FX_ONE * 2 + p) / (2 * p) <= FX_ONE,
{
    lemma_pow10_le(0, k);
    assert(f6 * FX_ONE * 2 + p >= 0) by (nonlinear_arith)
        requires
            f6 >= 0,
            p >= 1,
    ;
    vstd::arithmetic::div_mod::lemma_div_pos_is_pos(f6 * FX_ONE * 2 + p, 2 * p);
    let x = f6 * FX_ONE * 2 + p;
    let d = 2 * p;
    assert(x < (FX_ONE + 1) * d) by (nonlinear_arith)
        requires
            f6 <= p - 1,
            p >= 1,
            x == f6 * FX_ONE * 2 + p,
            d == 2 * p,
    ;
    vstd::arithmetic::div_mod::lemma_fundamental_div_mod(x, d);
    vstd::arithmetic::div_mod::lemma_mod_bound(x, d);
    let q = x / d;
    assert(q <= FX_ONE) by (nonlinear_arith)
        requires
            x == d * q + x % d,
            0 <= x % d < d,
            x < (FX_ONE + 1) * d,
            d >= 2,
            q >= 0,
    ;
}

/// `find_dot` looks at the suffix only, so it commutes with dropping a
/// prefix.
proof fn lemma_find_dot_shift(s: Seq<u8>, start: int, n: int)
    requires
        0 <= start <= n == s.len(),
    ensures
        find_dot(s.subrange(start, n), 0) == find_dot(s, start) - start,
{
    lemma_find_dot_shift_at(s, start, n, 0);
}

proof fn lemma_find_dot_shift_at(s: Seq<u8>, start: int, n: int, k: int)
    requires
        0 <= start <= n == s.len(),
        0 <= k <= n - start,
    ensures
        find_dot(s.subrange(start, n), k) == find_dot(s, start + k) - start,
    decreases n - start - k,
{
    let sub = s.subrange(start, n);
    if k < sub.len() {
        assert(sub[k] == s[start + k]);
        if s[start + k] != 46 {
            lemma_find_dot_shift_at(s, start, n, k + 1);
        }
    }
}


/// The five lists an OBJ file builds up, as mathematical sequences:
/// positions, normals, texture coordinates, triangles, and face corners.
pub type ObjLists = (Seq<Vec3>, Seq<Vec3>, Seq<Vec2>, Seq<(u32, u32, u32)>, Seq<
    Seq<VertexIndex>,
>);

/// The index of the first line feed at or after `from`, or the length if
/// there is none.
pub open spec fn find_nl(s: Seq<u8>, from: int) -> int
    decreases s.len() - from,
{
    if from < 0 || from >= s.len() {
        s.len() as int
    } else if s[from] == 10 {
        from
    } else {
        find_nl(s, from + 1)
    }
}

/// `find_nl` lands on a line feed or the end, and skips none.
pub proof fn lemma_find_nl(s: Seq<u8>, from: int)
    requires
        0 <= from <= s.len(),
    ensures
        from <= find_nl(s, from) <= s.len(),
        find_nl(s, from) < s.len() ==> s[find_nl(s, from)] == 10,
        forall|k: int| from <= k < find_nl(s, from) ==> s[k] != 10,
    decreases s.len() - from,
{
    if from < s.len() && s[from] != 10 {
        lemma_find_nl(s, from + 1);
    }
}

/// The first whitespace position in `[from, to)`, or `to`.
pub open spec fn token_end(s: Seq<u8>, from: int, to: int) -> int
    decreases to - from,
{
    if from < 0 || from >= to {
        to
    } else if is_ws(s[from]) {
        from
    } else {
        token_end(s, from + 1, to)
    }
}

/// `token_end` stays in range and moves past at least the first byte of a
/// token.
pub proof fn lemma_token_end(s: Seq<u8>, from: int, to: int)
    requires
        0 <= from <= to <= s.len(),
    ensures
        from <= token_end(s, from, to) <= to,
        from < to && !is_ws(s[from]) ==> token_end(s, from, to) > from,
        forall|k: int| from <= k < token_end(s, from, to) ==> !is_ws(s[k]),
        token_end(s, from, to) < to ==> is_ws(s[token_end(s, from, to)]),
    decreases to - from,
{
    if from < to && !is_ws(s[from]) {
        lemma_token_end(s, from + 1, to);
    }
}

/// The whitespace-separated token ranges of `s[from..to]`.
pub open spec fn spec_tokens(s: Seq<u8>, from: int, to: int) -> Seq<(int, int)>
    decreases to - from,
{
    if from < 0 || from >= to {
        Seq::empty()
    } else if is_ws(s[from]) {
        spec_tokens(s, from + 1, to)
    } else {
        let e = token_end(s, from, to);
        let nxt = if from + 1 <= e && e <= to {
            e
        } else {
            from + 1
        };
        seq![(from, e)] + spec_tokens(s, nxt, to)
    }
}

/// What parsing one coordinate token must yield: exactly the well-formed
/// plain decimal tokens whose whole part fits succeed, with the fx value.
pub open spec fn spec_coord(s: Seq<u8>, a: int, b: int) -> Result<i64, ()> {
    let t = s.subrange(a, b);
    let body = if t.len() > 0 && (t[0] == 43 || t[0] == 45) {
        t.subrange(1, t.len() as int)
    } else {
        t
    };
    let ip = body.subrange(0, find_dot(body, 0));
    if fx_token_wf(t) && digits_val(ip) <= FX_IP_LIMIT {
        Ok(fx_token_val(t) as i64)
    } else {
        Err(())
    }
}

/// What parsing and normalizing one face corner must yield, with the
/// errors the reader reports for line `line`.
pub open spec fn spec_corner(
    s: Seq<u8>,
    a: int,
    b: int,
    line: int,
    nv: int,
    nt: int,
    nn: int,
) -> Result<VertexIndex, Error> {
    match spec_parse_vertex(s.subrange(a, b)) {
        Err(()) => Err(Error::IntParse(line as usize)),
        Ok(vi) => match spec_normalize(vi, nv, nt, nn) {
            None => Err(Error::ObjParse(line as usize)),
            Some(f) => Ok(f),
        },
    }
}

/// What parsing the corner tokens `tk[k..]` of a face record must yield:
/// the normalized corners in order, or the first corner's error.
pub open spec fn spec_face(
    s: Seq<u8>,
    tk: Seq<(int, int)>,
    k: int,
    line: int,
    nv: int,
    nt: int,
    nn: int,
) -> Result<Seq<VertexIndex>, Error>
    decreases tk.len() - k,
{
    if k >= tk.len() {
        Ok(Seq::empty())
    } else {
        match spec_corner(s, tk[k].0, tk[k].1, line, nv, nt, nn) {
            Err(e) => Err(e),
            Ok(vi) => match spec_face(s, tk, k + 1, line, nv, nt, nn) {
                Err(e) => Err(e),
                Ok(rest) => Ok(seq![vi] + rest),
            },
        }
    }
}

/// What one line of OBJ text, numbered `line`, does to the lists: the
/// record it holds is parsed and appended, a comment or ignored record
/// leaves them unchanged, and a malformed record is the error the reader
/// reports.
pub open spec fn spec_line(s: Seq<u8>, from: int, to: int, line: int, st: ObjLists) -> Result<
    ObjLists,
    Error,
> {
    let tk = spec_tokens(s, from, to);
    if tk.len() == 0 {
        Ok(st)
    } else {
        let hl = tk[0].1 - tk[0].0;
        let h0 = s[tk[0].0];
        if hl == 1 && (h0 == 35 || h0 == 115 || h0 == 103) {
            Ok(st)
        } else if hl == 2 && h0 == 118 && s[tk[0].0 + 1] == 112 {
            Ok(st)
        } else if hl == 1 && h0 == 118 {
            if tk.len() != 4 {
                Err(Error::ObjParse(line as usize))
            } else {
                match spec_coord(s, tk[1].0, tk[1].1) {
                    Err(()) => Err(Error::FloatParse(line as usize)),
                    Ok(x) => match spec_coord(s, tk[2].0, tk[2].1) {
                        Err(()) => Err(Error::FloatParse(line as usize)),
                        Ok(y) => match spec_coord(s, tk[3].0, tk[3].1) {
                            Err(()) => Err(Error::FloatParse(line as usize)),
                            Ok(z) => Ok(
                                (st.0.push(Vec3(x, y, z)), st.1, st.2, st.3, st.4),
                            ),
                        },
                    },
                }
            }
        } else if hl == 2 && h0 == 118 && s[tk[0].0 + 1] == 110 {
            if tk.len() != 4 {
                Err(Error::ObjParse(line as usize))
            } else {
                match spec_coord(s, tk[1].0, tk[1].1) {
                    Err(()) => Err(Error::FloatParse(line as usize)),
                    Ok(x) => match spec_coord(s, tk[2].0, tk[2].1) {
                        Err(()) => Err(Error::FloatParse(line as usize)),
                        Ok(y) => match spec_coord(s, tk[3].0, tk[3].1) {
                            Err(()) => Err(Error::FloatParse(line as usize)),
                            Ok(z) => Ok(
                                (st.0, st.1.push(Vec3(x, y, z)), st.2, st.3, st.4),
                            ),
                        },
                    },
                }
            }
        } else if hl == 2 && h0 == 118 && s[tk[0].0 + 1] == 116 {
            if tk.len() < 3 || tk.len() > 4 {
                Err(Error::ObjParse(line as usize))
            } else {
                match spec_coord(s, tk[1].0, tk[1].1) {
                    Err(()) => Err(Error::FloatParse(line as usize)),
                    Ok(u) => match spec_coord(s, tk[2].0, tk[2].1) {
                        Err(()) => Err(Error::FloatParse(line as usize)),
                        Ok(v) => {
                            if tk.len() == 4 && (spec_coord(s, tk[3].0, tk[3].1) matches Err(())) {
                                Err(Error::FloatParse(line as usize))
                            } else {
                                Ok((st.0, st.1, st.2.push(Vec2(u, v)), st.3, st.4))
                            }
                        },
                    },
                }
            }
        } else if hl == 1 && h0 == 102 {
            if tk.len() < 4 {
                Err(Error::ObjParse(line as usize))
            } else if st.0.len() > 0x7fff_ffff || st.2.len() > 0x7fff_ffff || st.1.len()
                > 0x7fff_ffff {
                Err(Error::ObjParse(line as usize))
            } else {
                match spec_face(
                    s,
                    tk,
                    1,
                    line,
                    st.0.len() as int,
                    st.2.len() as int,
                    st.1.len() as int,
                ) {
                    Err(e) => Err(e),
                    Ok(face) => Ok(
                        (
                            st.0,
                            st.1,
                            st.2,
                            st.3.push(
                                (
                                    face[0].vertex as u32,
                                    face[1].vertex as u32,
                                    face[2].vertex as u32,
                                ),
                            ),
                            st.4.push(face),
                        ),
                    ),
                }
            }
        } else {
            Err(Error::ObjParse(line as usize))
        }
    }
}

/// What the whole text from `pos` on does to the lists, counting lines
/// from `line`: each line is handled in turn and the first error wins.
pub open spec fn spec_obj_from(s: Seq<u8>, pos: int, line: int, st: ObjLists) -> Result<
    ObjLists,
    Error,
>
    decreases s.len() - pos,
{
    if pos < 0 || pos >= s.len() {
        Ok(st)
    } else {
        let end = find_nl(s, pos);
        let le = if end > pos && s[end - 1] == 13 {
            end - 1
        } else {
            end
        };
        match spec_line(s, pos, le, line + 1, st) {
            Err(e) => Err(e),
            Ok(st2) => spec_obj_from(
                s,
                if pos + 1 <= end + 1 && end + 1 <= s.len() {
                    end + 1
                } else {
                    s.len() as int
                },
                line + 1,
                st2,
            ),
        }
    }
}

/// What reading a whole OBJ text must yield: the five lists that the
/// records build in order, or the first line's error.
pub open spec fn spec_read_obj(s: Seq<u8>) -> Result<ObjLists, Error> {
    spec_obj_from(
        s,
        0,
        0,
        (Seq::empty(), Seq::empty(), Seq::empty(), Seq::empty(), Seq::empty()),
    )
}

/// A mesh read from OBJ text, still in its raw multi-indexed form.
#[derive(Debug, Clone, PartialEq)]
pub struct Obj {
    pub vertices: Vec<Vec3>,
    pub normals: Vec<Vec3>,
    pub texture: Vec<Vec2>,
    /// Indices into the `vertices` array
    pub triangles: Vec<(u32, u32, u32)>,
    pub components: Vec<Vec<VertexIndex>>,
}

impl Obj {
    /// Every coordinate is in range for the vector arithmetic, every face
    /// has at least three corners, every normalized index is nonnegative,
    /// and each triangle repeats its face's first three position indices.
    pub open spec fn wf(self) -> bool {
        &&& forall|i: int|
            0 <= i < self.vertices@.len() ==> (#[trigger] self.vertices@[i]).bounded()
        &&& forall|i: int|
            0 <= i < self.normals@.len() ==> (#[trigger] self.normals@[i]).bounded()
        &&& forall|i: int|
            0 <= i < self.texture@.len() ==> (#[trigger] self.texture@[i]).bounded()
        &&& self.triangles@.len() == self.components@.len()
        &&& forall|i: int|
            0 <= i < self.components@.len() ==> (#[trigger] self.components@[i])@.len() >= 3
        &&& forall|i: int, j: int|
            0 <= i < self.components@.len() && 0 <= j < self.components@[i]@.len() ==> {
                &&& (#[trigger] self.components@[i]@[j]).vertex >= 0
                &&& (self.components@[i]@[j].texture matches Some(t) ==> t >= 0)
                &&& (self.components@[i]@[j].normal matches Some(nm) ==> nm >= 0)
            }
        &&& forall|i: int|
            0 <= i < self.triangles@.len() ==> (#[trigger] self.triangles@[i]) == (
                self.components@[i]@[0].vertex as u32,
                self.components@[i]@[1].vertex as u32,
                self.components@[i]@[2].vertex as u32,
            )
    }

    /// Reads an OBJ model from text. Position, texture, and normal records
    /// become fx-unit vectors; face records become normalized index
    /// corners; comment, `vp`, `s`, and `g` records and blank lines are
    /// skipped; anything else is an error naming the 1-based line.
    pub fn from_str(input: &str) -> (r: Result<Obj, Error>)
        ensures
            r matches Ok(o) ==> o.wf(),
            ({
                match spec_read_obj(vstd::string::StringSliceAdditionalSpecFns::spec_bytes(
                    input,
                )) {
                    Ok(st) => r matches Ok(o) && {
                        &&& o.vertices@ == st.0
                        &&& o.normals@ == st.1
                        &&& o.texture@ == st.2
                        &&& o.triangles@ == st.3
                        &&& o.components@.map_values(|f: Vec<VertexIndex>| f@) == st.4
                    },
                    Err(e) => r == Err::<Obj, Error>(e),
                }
            }),
    {
        Obj::from_bytes(input.as_bytes())
    }

    /// Reads an OBJ model from bytes, line by line: the result holds
    /// exactly the lists that `spec_read_obj` builds from the text, and a
    /// malformed text gives exactly the error it names, with the 1-based
    /// number of the first bad line.
    pub fn from_bytes(bytes: &[u8]) -> (r: Result<Obj, Error>)
        ensures
            r matches Ok(o) ==> o.wf(),
            ({
                match spec_read_obj(bytes@) {
                    Ok(st) => r matches Ok(o) && {
                        &&& o.vertices@ == st.0
                        &&& o.normals@ == st.1
                        &&& o.texture@ == st.2
                        &&& o.triangles@ == st.3
                        &&& o.components@.map_values(|f: Vec<VertexIndex>| f@) == st.4
                    },
                    Err(e) => r == Err::<Obj, Error>(e),
                }
            }),
    {
        let n = bytes.len();
        let mut vertices: Vec<Vec3> = Vec::new();
        let mut normals: Vec<Vec3> = Vec::new();
        let mut texture: Vec<Vec2> = Vec::new();
        let mut triangles: Vec<(u32, u32, u32)> = Vec::new();
        let mut components: Vec<Vec<VertexIndex>> = Vec::new();
        let mut pos: usize = 0;
        let mut line_num: usize = 0;
        proof {
            assert(components@.map_values(|f: Vec<VertexIndex>| f@) =~= Seq::<
                Seq<VertexIndex>,
            >::empty());
        }
        while pos < n
            invariant
                pos <= n,
                n == bytes@.len(),
                line_num <= pos,
                spec_read_obj(bytes@) == spec_obj_from(
                    bytes@,
                    pos as int,
                    line_num as int,
                    (
                        vertices@,
                        normals@,
                        texture@,
                        triangles@,
                        components@.map_values(|f: Vec<VertexIndex>| f@),
                    ),
                ),
                forall|i: int| 0 <= i < vertices@.len() ==> (#[trigger] vertices@[i]).bounded(),
                forall|i: int| 0 <= i < normals@.len() ==> (#[trigger] normals@[i]).bounded(),
                forall|i: int| 0 <= i < texture@.len() ==> (#[trigger] texture@[i]).bounded(),
                triangles@.len() == components@.len(),
                forall|i: int|
                    0 <= i < components@.len() ==> (#[trigger] components@[i])@.len() >= 3,
                forall|i: int, j: int|
                    0 <= i < components@.len() && 0 <= j < components@[i]@.len() ==> {
                        &&& (#[trigger] components@[i]@[j]).vertex >= 0
                        &&& (components@[i]@[j].texture matches Some(t) ==> t >= 0)
                        &&& (components@[i]@[j].normal matches Some(nm) ==> nm >= 0)
                    },
                forall|i: int|
                    0 <= i < triangles@.len() ==> (#[trigger] triangles@[i]) == (
                        components@[i]@[0].vertex as u32,
                        components@[i]@[1].vertex as u32,
                        components@[i]@[2].vertex as u32,
                    ),
            decreases n - pos,
        {
            let end = find_nl_at(bytes, pos);
            proof {
                lemma_find_nl(bytes@, pos as int);
            }
            let line_end: usize = if end > pos && bytes[end - 1] == 13 {
                end - 1
            } else {
                end
            };
            line_num = line_num + 1;
            let ghost st_pre = (
                vertices@,
                normals@,
                texture@,
                triangles@,
                components@.map_values(|f: Vec<VertexIndex>| f@),
            );
            match Obj::parse_line(
                bytes,
                pos,
                line_end,
                line_num,
                &mut vertices,
                &mut normals,
                &mut texture,
                &mut triangles,
                &mut components,
            ) {
                Ok(()) => {},
                Err(e) => {
                    proof {
                        assert(spec_line(
                            bytes@,
                            pos as int,
                            line_end as int,
                            line_num as int,
                            st_pre,
                        ) == Err::<ObjLists, Error>(e));
                    }
                    return Err(e);
                },
            }
            pos = if end < n {
                end + 1
            } else {
                n
            };
        }
        let o = Obj { vertices, normals, texture, triangles, components };
        proof {
            assert(o.vertices@ == vertices@);
        }
        Ok(o)
    }

    /// Handles one line of OBJ text, extending the lists it names.
    #[verifier::rlimit(100)]
    fn parse_line(
        bytes: &[u8],
        from: usize,
        to: usize,
        line_num: usize,
        vertices: &mut Vec<Vec3>,
        normals: &mut Vec<Vec3>,
        texture: &mut Vec<Vec2>,
        triangles: &mut Vec<(u32, u32, u32)>,
        components: &mut Vec<Vec<VertexIndex>>,
    ) -> (r: Result<(), Error>)
        requires
            from <= to <= bytes@.len(),
            forall|i: int|
                0 <= i < old(vertices)@.len() ==> (#[trigger] old(vertices)@[i]).bounded(),
            forall|i: int|
                0 <= i < old(normals)@.len() ==> (#[trigger] old(normals)@[i]).bounded(),
            forall|i: int|
                0 <= i < old(texture)@.len() ==> (#[trigger] old(texture)@[i]).bounded(),
            old(triangles)@.len() == old(components)@.len(),
            forall|i: int|
                0 <= i < old(components)@.len() ==> (#[trigger] old(components)@[i])@.len() >= 3,
            forall|i: int, j: int|
                0 <= i < old(components)@.len() && 0 <= j < old(components)@[i]@.len() ==> {
                    &&& (#[trigger] old(components)@[i]@[j]).vertex >= 0
                    &&& (old(components)@[i]@[j].texture matches Some(t) ==> t >= 0)
                    &&& (old(components)@[i]@[j].normal matches Some(nm) ==> nm >= 0)
                },
            forall|i: int|
                0 <= i < old(triangles)@.len() ==> (#[trigger] old(triangles)@[i]) == (
                    old(components)@[i]@[0].vertex as u32,
                    old(components)@[i]@[1].vertex as u32,
                    old(components)@[i]@[2].vertex as u32,
                ),
        ensures
            forall|i: int|
                0 <= i < final(vertices)@.len() ==> (#[trigger] final(vertices)@[i]).bounded(),
            forall|i: int|
                0 <= i < final(normals)@.len() ==> (#[trigger] final(normals)@[i]).bounded(),
            forall|i: int|
                0 <= i < final(texture)@.len() ==> (#[trigger] final(texture)@[i]).bounded(),
            final(triangles)@.len() == final(components)@.len(),
            forall|i: int|
                0 <= i < final(components)@.len() ==> (#[trigger] final(components)@[i])@.len()
                    >= 3,
            forall|i: int, j: int|
                0 <= i < final(components)@.len() && 0 <= j < final(components)@[i]@.len() ==> {
                    &&& (#[trigger] final(components)@[i]@[j]).vertex >= 0
                    &&& (final(components)@[i]@[j].texture matches Some(t) ==> t >= 0)
                    &&& (final(components)@[i]@[j].normal matches Some(nm) ==> nm >= 0)
                },
            forall|i: int|
                0 <= i < final(triangles)@.len() ==> (#[trigger] final(triangles)@[i]) == (
                    final(components)@[i]@[0].vertex as u32,
                    final(components)@[i]@[1].vertex as u32,
                    final(components)@[i]@[2].vertex as u32,
                ),
            ({
                let st = (
                    old(vertices)@,
                    old(normals)@,
                    old(texture)@,
                    old(triangles)@,
                    old(components)@.map_values(|f: Vec<VertexIndex>| f@),
                );
                match spec_line(bytes@, from as int, to as int, line_num as int, st) {
                    Ok(st2) => {
                        &&& r == Ok::<(), Error>(())
                        &&& final(vertices)@ == st2.0
                        &&& final(normals)@ == st2.1
                        &&& final(texture)@ == st2.2
                        &&& final(triangles)@ == st2.3
                        &&& final(components)@.map_values(|f: Vec<VertexIndex>| f@) == st2.4
                    },
                    Err(e) => {
                        &&& r == Err::<(), Error>(e)
                        &&& final(vertices)@ == old(vertices)@
                        &&& final(normals)@ == old(normals)@
                        &&& final(texture)@ == old(texture)@
                        &&& final(triangles)@ == old(triangles)@
                        &&& final(components)@ == old(components)@
                    },
                }
            }),
    {
        let ghost tk = spec_tokens(bytes@, from as int, to as int);
        let toks = split_tokens(bytes, from, to);
        if toks.len() == 0 {
            return Ok(());
        }
        proof {
            assert(tk[0] == (toks@[0].0 as int, toks@[0].1 as int));
        }
        let head = toks[0].1 - toks[0].0;
        let h0 = bytes[toks[0].0];
        if head == 1 && (h0 == 35 || h0 == 115 || h0 == 103) {
            // '#', 's', 'g'
            return Ok(());
        }
        if head == 2 && h0 == 118 && bytes[toks[0].0 + 1] == 112 {
            // "vp"
            return Ok(());
        }
        if head == 1 && h0 == 118 {
            // "v x y z"
            if toks.len() != 4 {
                return Err(Error::ObjParse(line_num));
            }
            proof {
                assert(tk[1] == (toks@[1].0 as int, toks@[1].1 as int));
                assert(tk[2] == (toks@[2].0 as int, toks@[2].1 as int));
                assert(tk[3] == (toks@[3].0 as int, toks@[3].1 as int));
            }
            let t1 = toks[1];
            let t2 = toks[2];
            let t3 = toks[3];
            let x = Obj::coord(bytes, t1.0, t1.1, line_num)?;
            let y = Obj::coord(bytes, t2.0, t2.1, line_num)?;
            let z = Obj::coord(bytes, t3.0, t3.1, line_num)?;
            vertices.push(Vec3(x, y, z));
            return Ok(());
        }
        if head == 2 && h0 == 118 && bytes[toks[0].0 + 1] == 110 {
            // "vn x y z"
            if toks.len() != 4 {
                return Err(Error::ObjParse(line_num));
            }
            proof {
                assert(tk[1] == (toks@[1].0 as int, toks@[1].1 as int));
                assert(tk[2] == (toks@[2].0 as int, toks@[2].1 as int));
                assert(tk[3] == (toks@[3].0 as int, toks@[3].1 as int));
            }
            let t1 = toks[1];
            let t2 = toks[2];
            let t3 = toks[3];
            let x = Obj::coord(bytes, t1.0, t1.1, line_num)?;
            let y = Obj::coord(bytes, t2.0, t2.1, line_num)?;
            let z = Obj::coord(bytes, t3.0, t3.1, line_num)?;
            normals.push(Vec3(x, y, z));
            return Ok(());
        }
        if head == 2 && h0 == 118 && bytes[toks[0].0 + 1] == 116 {
            // "vt u v [w]"
            if toks.len() < 3 || toks.len() > 4 {
                return Err(Error::ObjParse(line_num));
            }
            proof {
                assert(tk[1] == (toks@[1].0 as int, toks@[1].1 as int));
                assert(tk[2] == (toks@[2].0 as int, toks@[2].1 as int));
            }
            let t1 = toks[1];
            let t2 = toks[2];
            let u = Obj::coord(bytes, t1.0, t1.1, line_num)?;
            let v = Obj::coord(bytes, t2.0, t2.1, line_num)?;
            if toks.len() == 4 {
                proof {
                    assert(tk[3] == (toks@[3].0 as int, toks@[3].1 as int));
                }
                let t3 = toks[3];
                let _ = Obj::coord(bytes, t3.0, t3.1, line_num)?;
            }
            texture.push(Vec2(u, v));
            return Ok(());
        }
        if head == 1 && h0 == 102 {
            // "f a/b/c ..."
            if toks.len() < 4 {
                return Err(Error::ObjParse(line_num));
            }
            if vertices.len() > 0x7fff_ffff || texture.len() > 0x7fff_ffff || normals.len()
                > 0x7fff_ffff {
                return Err(Error::ObjParse(line_num));
            }
            let ghost nv = vertices@.len() as int;
            let ghost nt = texture@.len() as int;
            let ghost nn = normals@.len() as int;
            let mut face: Vec<VertexIndex> = Vec::new();
            proof {
                match spec_face(bytes@, tk, 1, line_num as int, nv, nt, nn) {
                    Ok(rest) => {
                        assert(face@ + rest =~= rest);
                    },
                    Err(_) => {},
                }
            }
            let mut k: usize = 1;
            while k < toks.len()
                invariant
                    1 <= k <= toks@.len(),
                    toks@.len() >= 4,
                    from <= to <= bytes@.len(),
                    tk == spec_tokens(bytes@, from as int, to as int),
                    tk.len() == toks@.len(),
                    forall|j: int|
                        0 <= j < tk.len() ==> #[trigger] tk[j] == (
                            toks@[j].0 as int,
                            toks@[j].1 as int,
                        ),
                    tk[0].1 - tk[0].0 == 1,
                    bytes@[tk[0].0] == 102,
                    nv == vertices@.len() as int,
                    nt == texture@.len() as int,
                    nn == normals@.len() as int,
                    ({
                        let full = spec_face(bytes@, tk, 1, line_num as int, nv, nt, nn);
                        match spec_face(bytes@, tk, k as int, line_num as int, nv, nt, nn) {
                            Ok(rest) => full == Ok::<Seq<VertexIndex>, Error>(face@ + rest),
                            Err(e) => full == Err::<Seq<VertexIndex>, Error>(e),
                        }
                    }),
                    vertices@ == old(vertices)@,
                    normals@ == old(normals)@,
                    texture@ == old(texture)@,
                    triangles@ == old(triangles)@,
                    components@ == old(components)@,
                    forall|i: int|
                        0 <= i < vertices@.len() ==> (#[trigger] vertices@[i]).bounded(),
                    forall|i: int|
                        0 <= i < normals@.len() ==> (#[trigger] normals@[i]).bounded(),
                    forall|i: int|
                        0 <= i < texture@.len() ==> (#[trigger] texture@[i]).bounded(),
                    triangles@.len() == components@.len(),
                    forall|i: int|
                        0 <= i < components@.len() ==> (#[trigger] components@[i])@.len() >= 3,
                    forall|i: int, j: int|
                        0 <= i < components@.len() && 0 <= j < components@[i]@.len() ==> {
                            &&& (#[trigger] components@[i]@[j]).vertex >= 0
                            &&& (components@[i]@[j].texture matches Some(t) ==> t >= 0)
                            &&& (components@[i]@[j].normal matches Some(nm) ==> nm >= 0)
                        },
                    forall|i: int|
                        0 <= i < triangles@.len() ==> (#[trigger] triangles@[i]) == (
                            components@[i]@[0].vertex as u32,
                            components@[i]@[1].vertex as u32,
                            components@[i]@[2].vertex as u32,
                        ),
                    forall|j: int|
                        0 <= j < toks@.len() ==> from <= #[trigger] toks@[j].0 < toks@[j].1 <= to,
                    face@.len() == k - 1,
                    vertices@.len() <= 0x7fff_ffff,
                    texture@.len() <= 0x7fff_ffff,
                    normals@.len() <= 0x7fff_ffff,
                    forall|j: int|
                        0 <= j < face@.len() ==> {
                            &&& (#[trigger] face@[j]).vertex >= 0
                            &&& (face@[j].texture matches Some(t) ==> t >= 0)
                            &&& (face@[j].normal matches Some(nm) ==> nm >= 0)
                        },
                decreases toks@.len() - k,
            {
                proof {
                    assert(tk[k as int] == (toks@[k as int].0 as int, toks@[k as int].1 as int));
                }
                let t = toks[k];
                let chunk = vstd::slice::slice_subrange(bytes, t.0, t.1);
                let vi = match parse_vertex(chunk) {
                    Ok(vi) => vi,
                    Err(_) => {
                        proof {
                            assert(spec_corner(
                                bytes@,
                                tk[k as int].0,
                                tk[k as int].1,
                                line_num as int,
                                nv,
                                nt,
                                nn,
                            ) == Err::<VertexIndex, Error>(Error::IntParse(line_num)));
                        }
                        return Err(Error::IntParse(line_num));
                    },
                };
                let fixed = match normalize_indices(vi, vertices.len(), texture.len(),
                    normals.len()) {
                    Ok(f) => f,
                    Err(_) => {
                        proof {
                            assert(spec_corner(
                                bytes@,
                                tk[k as int].0,
                                tk[k as int].1,
                                line_num as int,
                                nv,
                                nt,
                                nn,
                            ) == Err::<VertexIndex, Error>(Error::ObjParse(line_num)));
                        }
                        return Err(Error::ObjParse(line_num));
                    },
                };
                proof {
                    let sn = spec_normalize(
                        vi,
                        vertices@.len() as int,
                        texture@.len() as int,
                        normals@.len() as int,
                    );
                    assert(sn matches Some(o) && o == fixed);
                    assert(spec_corner(
                        bytes@,
                        tk[k as int].0,
                        tk[k as int].1,
                        line_num as int,
                        nv,
                        nt,
                        nn,
                    ) == Ok::<VertexIndex, Error>(fixed));
                    let ghost fpre = face@;
                    match spec_face(bytes@, tk, k as int + 1, line_num as int, nv, nt, nn) {
                        Ok(rest2) => {
                            assert(fpre + (seq![fixed] + rest2) =~= fpre.push(fixed) + rest2);
                        },
                        Err(_) => {},
                    }
                }
                face.push(fixed);
                k = k + 1;
            }
            proof {
                assert(spec_face(bytes@, tk, k as int, line_num as int, nv, nt, nn)
                    == Ok::<Seq<VertexIndex>, Error>(Seq::empty()));
                assert(face@ + Seq::<VertexIndex>::empty() =~= face@);
            }
            let i0 = face[0];
            let i1 = face[1];
            let i2 = face[2];
            triangles.push((i0.vertex as u32, i1.vertex as u32, i2.vertex as u32));
            let ghost fview = face@;
            let ghost comps_pre = components@;
            components.push(face);
            proof {
                assert(components@.map_values(|f: Vec<VertexIndex>| f@) =~= comps_pre.map_values(
                    |f: Vec<VertexIndex>| f@,
                ).push(fview));
            }
            return Ok(());
        }
        Err(Error::ObjParse(line_num))
    }

    /// Parses the token `bytes[a..b]` of a record as a coordinate.
    fn coord(bytes: &[u8], a: usize, b: usize, line_num: usize) -> (r: Result<i64, Error>)
        requires
            a <= b <= bytes@.len(),
        ensures
            r == (match spec_coord(bytes@, a as int, b as int) {
                Ok(v) => Ok::<i64, Error>(v),
                Err(()) => Err::<i64, Error>(Error::FloatParse(line_num)),
            }),
            r matches Ok(v) ==> -VEC_LIMIT <= v <= VEC_LIMIT,
    {
        let chunk = vstd::slice::slice_subrange(bytes, a, b);
        match parse_fx(chunk) {
            Ok(v) => Ok(v),
            Err(()) => Err(Error::FloatParse(line_num)),
        }
    }
}


/// Finds the first line feed at or after `from` in a byte slice.
fn find_nl_at(s: &[u8], from: usize) -> (r: usize)
    requires
        from <= s@.len(),
    ensures
        r == find_nl(s@, from as int),
        from <= r <= s@.len(),
{
    let n = s.len();
    let mut i = from;
    while i < n
        invariant
            from <= i <= n,
            n == s@.len(),
            find_nl(s@, from as int) == find_nl(s@, i as int),
        decreases n - i,
    {
        if s[i] == 10 {
            return i;
        }
        i = i + 1;
    }
    n
}

/// The byte is ASCII whitespace as OBJ records use it.
pub open spec fn is_ws(b: u8) -> bool {
    b == 32 || b == 9 || b == 13 || b == 11 || b == 12
}

fn byte_is_ws(b: u8) -> (r: bool)
    ensures
        r == is_ws(b),
{
    b == 32 || b == 9 || b == 13 || b == 11 || b == 12
}

/// Splits `bytes[from..to]` at whitespace into token ranges.
fn token_end_at(bytes: &[u8], from: usize, to: usize) -> (r: usize)
    requires
        from <= to <= bytes@.len(),
    ensures
        r == token_end(bytes@, from as int, to as int),
        from <= r <= to,
{
    let mut i = from;
    while i < to
        invariant
            from <= i <= to <= bytes@.len(),
            token_end(bytes@, from as int, to as int) == token_end(bytes@, i as int, to as int),
        decreases to - i,
    {
        if byte_is_ws(bytes[i]) {
            return i;
        }
        i = i + 1;
    }
    to
}

/// Splits `bytes[from..to]` at whitespace into token ranges, exactly the
/// ranges `spec_tokens` names.
fn split_tokens(bytes: &[u8], from: usize, to: usize) -> (toks: Vec<(usize, usize)>)
    requires
        from <= to <= bytes@.len(),
    ensures
        ({
            let tk = spec_tokens(bytes@, from as int, to as int);
            &&& toks@.len() == tk.len()
            &&& forall|j: int|
                0 <= j < tk.len() ==> #[trigger] tk[j] == (toks@[j].0 as int, toks@[j].1 as int)
        }),
        forall|j: int| 0 <= j < toks@.len() ==> from <= #[trigger] toks@[j].0 < toks@[j].1 <= to,
    decreases to - from,
{
    if from >= to {
        return Vec::new();
    }
    if byte_is_ws(bytes[from]) {
        return split_tokens(bytes, from + 1, to);
    }
    let e = token_end_at(bytes, from, to);
    proof {
        lemma_token_end(bytes@, from as int, to as int);
    }
    let mut rest = split_tokens(bytes, e, to);
    rest.insert(0, (from, e));
    proof {
        let tk = spec_tokens(bytes@, from as int, to as int);
        let sub = spec_tokens(bytes@, e as int, to as int);
        assert(tk == seq![(from as int, e as int)] + sub);
        assert(rest@.len() == tk.len());
        assert forall|j: int| 0 <= j < tk.len() implies #[trigger] tk[j] == (
            rest@[j].0 as int,
            rest@[j].1 as int,
        ) by {
            if j > 0 {
                assert(tk[j] == sub[j - 1]);
            }
        };
    }
    rest
}

impl Obj {
    /// One corner's indices all point inside their lists.
    pub open spec fn corner_ok(self, vi: VertexIndex) -> bool {
        &&& 0 <= vi.vertex < self.vertices@.len()
        &&& (vi.texture matches Some(t) ==> 0 <= t < self.texture@.len())
        &&& (vi.normal matches Some(nm) ==> 0 <= nm < self.normals@.len())
    }

    /// The single-index vertex a corner stands for: its position, its
    /// texture coordinate or zero, and its normal or zero.
    pub open spec fn vert_of(self, vi: VertexIndex) -> Vert {
        Vert {
            pos: self.vertices@[vi.vertex as int],
            tex: match vi.texture {
                Some(t) => self.texture@[t as int],
                None => Vec2(0, 0),
            },
            norm: match vi.normal {
                Some(nm) => self.normals@[nm as int],
                None => Vec3(0, 0, 0),
            },
        }
    }

    /// A vertex pool under construction is consistent: each slot's vertex
    /// carries exactly the values its corner names, and is in range.
    pub open spec fn pool_ok(self, keys: Seq<VertexIndex>, verts: Seq<Vert>) -> bool {
        &&& keys.len() == verts.len()
        &&& forall|k: int|
            0 <= k < keys.len() ==> {
                &&& self.corner_ok(#[trigger] keys[k])
                &&& verts[k] == self.vert_of(keys[k])
                &&& verts[k].bounded()
            }
    }

    /// The first `n` faces have been turned into index triples whose slots
    /// carry the corners' values.
    pub open spec fn tris_ok(
        self,
        tris: Seq<(usize, usize, usize)>,
        verts: Seq<Vert>,
        n: int,
    ) -> bool {
        &&& tris.len() == n
        &&& forall|j: int|
            0 <= j < n ==> {
                &&& (#[trigger] tris[j]).0 < verts.len()
                &&& tris[j].1 < verts.len()
                &&& tris[j].2 < verts.len()
                &&& verts[tris[j].0 as int] == self.vert_of(self.components@[j]@[0])
                &&& verts[tris[j].1 as int] == self.vert_of(self.components@[j]@[1])
                &&& verts[tris[j].2 as int] == self.vert_of(self.components@[j]@[2])
            }
    }

    /// Some face names this corner.
    pub open spec fn key_used(self, vi: VertexIndex) -> bool {
        exists|i: int, j: int|
            0 <= i < self.components@.len() && 0 <= j < self.components@[i]@.len()
                && self.components@[i]@[j] == vi
    }

    /// The vertex pool of a converted mesh deduplicates corners: one slot
    /// per distinct index triple, each slot carrying exactly the values its
    /// triple names, every slot used by some face corner, and each
    /// triangle's slots holding its face's own corners.
    pub open spec fn pool_describes(self, keys: Seq<VertexIndex>, m: Model<Vert>) -> bool {
        &&& keys.len() == m.vertices@.len()
        &&& forall|k1: int, k2: int| 0 <= k1 < k2 < keys.len() ==> keys[k1] != keys[k2]
        &&& forall|k: int|
            0 <= k < keys.len() ==> self.corner_ok(#[trigger] keys[k]) && m.vertices@[k]
                == self.vert_of(keys[k])
        &&& forall|k: int| 0 <= k < keys.len() ==> self.key_used(#[trigger] keys[k])
        &&& forall|i: int|
            0 <= i < m.triangles@.len() ==> {
                &&& keys[#[trigger] m.triangles@[i].0 as int] == self.components@[i]@[0]
                &&& keys[m.triangles@[i].1 as int] == self.components@[i]@[1]
                &&& keys[m.triangles@[i].2 as int] == self.components@[i]@[2]
            }
    }

    /// The pool built by the conversion loop satisfies `pool_describes`.
    proof fn lemma_pool_witness(
        self,
        keys: Seq<VertexIndex>,
        verts: Seq<Vert>,
        tris: Seq<(usize, usize, usize)>,
        m: Model<Vert>,
    )
        requires
            m.vertices@ == verts,
            m.triangles@ == tris,
            self.pool_ok(keys, verts),
            forall|k1: int, k2: int| 0 <= k1 < k2 < keys.len() ==> keys[k1] != keys[k2],
            forall|k: int| 0 <= k < keys.len() ==> self.key_used(#[trigger] keys[k]),
            forall|j: int|
                0 <= j < tris.len() ==> {
                    &&& (#[trigger] tris[j]).0 < verts.len()
                    &&& tris[j].1 < verts.len()
                    &&& tris[j].2 < verts.len()
                    &&& keys[tris[j].0 as int] == self.components@[j]@[0]
                    &&& keys[tris[j].1 as int] == self.components@[j]@[1]
                    &&& keys[tris[j].2 as int] == self.components@[j]@[2]
                },
        ensures
            exists|ks: Seq<VertexIndex>| self.pool_describes(ks, m),
    {
        assert forall|k: int| 0 <= k < keys.len() implies self.corner_ok(#[trigger] keys[k])
            && m.vertices@[k] == self.vert_of(keys[k]) by {
            assert(self.corner_ok(keys[k]) && verts[k] == self.vert_of(keys[k]));
        };
        assert forall|i: int| 0 <= i < m.triangles@.len() implies {
            &&& keys[#[trigger] m.triangles@[i].0 as int] == self.components@[i]@[0]
            &&& keys[m.triangles@[i].1 as int] == self.components@[i]@[1]
            &&& keys[m.triangles@[i].2 as int] == self.components@[i]@[2]
        } by {
            assert(m.triangles@[i] == tris[i]);
            assert(keys[tris[i].0 as int] == self.components@[i]@[0]);
        };
        assert(self.pool_describes(keys, m));
    }

    /// Every face has exactly three corners and every corner's indices are
    /// in range: what converting to a single-indexed mesh needs.
    pub open spec fn model_ok(self) -> bool {
        forall|i: int|
            0 <= i < self.components@.len() ==> {
                &&& (#[trigger] self.components@[i])@.len() == 3
                &&& self.corner_ok(self.components@[i]@[0])
                &&& self.corner_ok(self.components@[i]@[1])
                &&& self.corner_ok(self.components@[i]@[2])
            }
    }

    /// Converts the multi-indexed form into a single-indexed mesh,
    /// deduplicating equal corners: it succeeds exactly when every face
    /// has three corners whose indices are all in range, and then each
    /// triangle's vertices carry the values its corners name.
    #[verifier::rlimit(100)]
    pub fn model(&self) -> (r: Result<Model<Vert>, String>)
        requires
            self.wf(),
        ensures
            self.model_ok() ==> (r matches Ok(m) && {
                &&& m.wf()
                &&& self.tris_ok(m.triangles@, m.vertices@, self.components@.len() as int)
                &&& forall|k: int|
                    0 <= k < m.vertices@.len() ==> (#[trigger] m.vertices@[k]).bounded()
                &&& exists|keys: Seq<VertexIndex>| self.pool_describes(keys, m)
            }),
            !self.model_ok() ==> (r matches Err(_)),
    {
        let mut keys: Vec<VertexIndex> = Vec::new();
        let mut verts: Vec<Vert> = Vec::new();
        let mut tris: Vec<(usize, usize, usize)> = Vec::new();
        let nfaces = self.components.len();
        let mut i: usize = 0;
        while i < nfaces
            invariant
                i <= nfaces,
                nfaces == self.components@.len(),
                self.wf(),
                self.pool_ok(keys@, verts@),
                self.tris_ok(tris@, verts@, i as int),
                forall|k1: int, k2: int| 0 <= k1 < k2 < keys@.len() ==> keys@[k1] != keys@[k2],
                forall|k: int| 0 <= k < keys@.len() ==> self.key_used(#[trigger] keys@[k]),
                forall|j: int|
                    0 <= j < tris@.len() ==> {
                        &&& keys@[#[trigger] tris@[j].0 as int] == self.components@[j]@[0]
                        &&& keys@[tris@[j].1 as int] == self.components@[j]@[1]
                        &&& keys@[tris@[j].2 as int] == self.components@[j]@[2]
                    },
                forall|j: int|
                    0 <= j < i ==> {
                        &&& (#[trigger] self.components@[j])@.len() == 3
                        &&& self.corner_ok(self.components@[j]@[0])
                        &&& self.corner_ok(self.components@[j]@[1])
                        &&& self.corner_ok(self.components@[j]@[2])
                    },
            decreases nfaces - i,
        {
            let face = &self.components[i];
            if face.len() != 3 {
                return Err("a face must have exactly 3 corners".to_owned());
            }
            let ghost s0 = keys@;
            let c0 = face[0];
            let c1 = face[1];
            let c2 = face[2];
            let i0 = match self.corner_index(c0, &mut keys, &mut verts) {
                Ok(k) => k,
                Err(e) => {
                    return Err(e);
                },
            };
            let ghost s1 = keys@;
            let i1 = match self.corner_index(c1, &mut keys, &mut verts) {
                Ok(k) => k,
                Err(e) => {
                    return Err(e);
                },
            };
            let ghost s2 = keys@;
            let i2 = match self.corner_index(c2, &mut keys, &mut verts) {
                Ok(k) => k,
                Err(e) => {
                    return Err(e);
                },
            };
            proof {
                assert(c0 == self.components@[i as int]@[0]);
                assert(c1 == self.components@[i as int]@[1]);
                assert(c2 == self.components@[i as int]@[2]);
                assert forall|k: int| 0 <= k < keys@.len() implies self.key_used(
                    #[trigger] keys@[k],
                ) by {
                    if k < s0.len() {
                        assert(keys@[k] == s0[k]);
                        assert(self.key_used(s0[k]));
                    } else if k < s1.len() {
                        assert(keys@[k] == s1[k] && s1[k] == c0);
                        assert(self.components@[i as int]@[0] == keys@[k]);
                    } else if k < s2.len() {
                        assert(keys@[k] == s2[k] && s2[k] == c1);
                        assert(self.components@[i as int]@[1] == keys@[k]);
                    } else {
                        assert(keys@[k] == c2);
                        assert(self.components@[i as int]@[2] == keys@[k]);
                    }
                };
            }
            tris.push((i0, i1, i2));
            i = i + 1;
        }
        proof {
            assert forall|k: int| 0 <= k < verts@.len() implies (#[trigger] verts@[k]).bounded() by {
                assert(self.corner_ok(keys@[k]));
            };
        }
        let ghost gtris = tris@;
        let ghost gverts = verts@;
        let ghost gkeys = keys@;
        match Model::new(verts, tris) {
            Some(m) => {
                proof {
                    if self.model_ok() {
                        self.lemma_pool_witness(keys@, gverts, gtris, m);
                    }
                }
                Ok(m)
            },
            None => {
                proof {
                    let bad = choose|ii: int|
                        0 <= ii < gtris.len() && !(#[trigger] (gtris[ii].0) < gverts.len()
                            && gtris[ii].1 < gverts.len() && gtris[ii].2 < gverts.len());
                    assert(gtris[bad].0 < gverts.len() && gtris[bad].1 < gverts.len()
                        && gtris[bad].2 < gverts.len());
                }
                Err("mesh construction rejected an index".to_owned())
            },
        }
    }

    /// Finds or inserts the single-index slot for one corner.
    #[verifier::rlimit(100)]
    fn corner_index(
        &self,
        vi: VertexIndex,
        keys: &mut Vec<VertexIndex>,
        verts: &mut Vec<Vert>,
    ) -> (r: Result<usize, String>)
        requires
            self.wf(),
            self.pool_ok(old(keys)@, old(verts)@),
            forall|k1: int, k2: int|
                0 <= k1 < k2 < old(keys)@.len() ==> old(keys)@[k1] != old(keys)@[k2],
        ensures
            self.pool_ok(final(keys)@, final(verts)@),
            final(verts)@.len() >= old(verts)@.len(),
            forall|k: int|
                0 <= k < old(verts)@.len() ==> #[trigger] final(verts)@[k] == old(verts)@[k],
            forall|k: int| 0 <= k < old(keys)@.len() ==> #[trigger] final(keys)@[k] == old(keys)@[k],
            forall|k1: int, k2: int|
                0 <= k1 < k2 < final(keys)@.len() ==> final(keys)@[k1] != final(keys)@[k2],
            self.corner_ok(vi) ==> (r matches Ok(idx) && idx < final(verts)@.len()
                && final(verts)@[idx as int] == self.vert_of(vi) && final(keys)@[idx as int] == vi
                && final(keys)@ == (if old(keys)@.contains(vi) {
                old(keys)@
            } else {
                old(keys)@.push(vi)
            })),
            !self.corner_ok(vi) ==> (r matches Err(_) && final(keys)@ == old(keys)@
                && final(verts)@ == old(verts)@),
    {
        let n = keys.len();
        let mut k: usize = 0;
        while k < n
            invariant
                k <= n,
                n == keys@.len(),
                keys@ == old(keys)@,
                verts@ == old(verts)@,
                self.pool_ok(keys@, verts@),
                forall|j: int|
                    0 <= j < old(keys)@.len() ==> #[trigger] keys@[j] == old(keys)@[j],
                forall|k1: int, k2: int|
                    0 <= k1 < k2 < keys@.len() ==> keys@[k1] != keys@[k2],
                forall|j: int| 0 <= j < k ==> keys@[j] != vi,
            decreases n - k,
        {
            let cand = keys[k];
            if cand.vertex == vi.vertex && opt_eq(cand.texture, vi.texture) && opt_eq(
                cand.normal,
                vi.normal,
            ) {
                proof {
                    assert(keys@[k as int] == vi);
                    assert(keys@.contains(vi));
                }
                return Ok(k);
            }
            k = k + 1;
        }
        if vi.vertex < 0 || vi.vertex as usize >= self.vertices.len() {
            return Err("a corner names a position that does not exist".to_owned());
        }
        let pos = self.vertices[vi.vertex as usize];
        let tex = match vi.texture {
            Some(t) => {
                if t < 0 || t as usize >= self.texture.len() {
                    return Err("a corner names a texture coordinate that does not exist".to_owned(),
                    );
                }
                self.texture[t as usize]
            },
            None => Vec2(0, 0),
        };
        let norm = match vi.normal {
            Some(nm) => {
                if nm < 0 || nm as usize >= self.normals.len() {
                    return Err("a corner names a normal that does not exist".to_owned());
                }
                self.normals[nm as usize]
            },
            None => Vec3(0, 0, 0),
        };
        let vert = Vert { pos, tex, norm };
        let idx = verts.len();
        proof {
            assert(!keys@.contains(vi));
        }
        keys.push(vi);
        verts.push(vert);
        Ok(idx)
    }
}

/// Compares two optional indices.
fn opt_eq(a: Option<i32>, b: Option<i32>) -> (r: bool)
    ensures
        r == (a == b),
{
    match (a, b) {
        (Option::None, Option::None) => true,
        (Option::Some(x), Option::Some(y)) => x == y,
        _ => false,
    }
}

} // verus!