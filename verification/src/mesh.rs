//! The mesh loader: a plain-text format with one record per line.
//!
//! A line starting with the token `v` lists the three fixed-point
//! coordinates of a vertex; a line starting with `f` lists three 1-based
//! vertex indices forming a triangle.  Any other line is ignored.  Numbers
//! are signed decimals with up to six whole digits and up to eight fraction
//! digits, and must lie in the pipeline's working range; anything else on a
//! `v` or `f` line is a fatal load error, as is an index that does not name
//! a vertex.  Fields are separated by single spaces, lines by single
//! newlines.

use vstd::prelude::*;

use crate::vector::FP_ONE;
use crate::vector::Vec3;
use crate::vector::Vector;
use crate::vector::WORLD_MAX;
use crate::vector::tdiv;
use crate::vector::tdiv_i64;
use crate::triangle::Triangle;

verus! {

/// Why a mesh failed to load.
#[derive(Debug, Clone, Copy, PartialEq, Eq, Structural)]
pub enum MeshError {
    /// A field of a `v` or `f` line is not a number of the accepted form,
    /// or a coordinate lies outside the working range.
    BadNumber,
    /// A face names a vertex index that is zero or past the vertex list.
    BadIndex,
    /// A `v` or `f` line has fewer than three fields after its marker.
    ShortLine,
}

/// A loaded mesh: the vertex list in file order, and the triangles built
/// from it.
pub struct Mesh {
    pub vertices: Vec<Vector>,
    pub triangles: Vec<Triangle>,
}

/// The mathematical value of a [`Mesh`].
#[verifier::ext_equal]
pub struct MeshV {
    pub vertices: Seq<Vec3>,
    pub triangles: Seq<Seq<Vec3>>,
}

impl View for Mesh {
    type V = MeshV;

    open spec fn view(&self) -> MeshV {
        MeshV {
            vertices: Seq::new(self.vertices@.len(), |i: int| self.vertices@[i]@),
            triangles: Seq::new(self.triangles@.len(), |i: int| self.triangles@[i]@),
        }
    }
}

/// Splitting a byte sequence at every occurrence of `sep`: always one more
/// piece than separators, so the empty input gives one empty piece.
pub open spec fn split_bytes(s: Seq<u8>, sep: u8) -> Seq<Seq<u8>>
    decreases s.len(),
{
    if s.len() == 0 {
        seq![Seq::empty()]
    } else {
        let rest = split_bytes(s.drop_first(), sep);
        if s[0] == sep {
            seq![Seq::empty()].add(rest)
        } else {
            seq![seq![s[0]].add(rest[0])].add(rest.drop_first())
        }
    }
}

/// A decimal digit.
pub open spec fn is_digit(c: u8) -> bool {
    48 <= c <= 57
}

/// All bytes of `s` are decimal digits.
pub open spec fn all_digits(s: Seq<u8>) -> bool {
    forall|i: int| 0 <= i < s.len() ==> is_digit(#[trigger] s[i])
}

/// The number the digit string `s` denotes.
pub open spec fn digits_val(s: Seq<u8>) -> int
    decreases s.len(),
{
    if s.len() == 0 {
        0
    } else {
        digits_val(s.drop_last()) * 10 + (s.last() - 48)
    }
}

/// Ten to the `n`.
pub open spec fn pow10(n: nat) -> int
    decreases n,
{
    if n == 0 {
        1
    } else {
        10 * pow10((n - 1) as nat)
    }
}

/// The index of the first `.` in `s`, or its length if there is none.
pub open spec fn dot_pos(s: Seq<u8>) -> int
    decreases s.len(),
{
    if s.len() == 0 {
        0
    } else if s[0] == 46 {
        0
    } else {
        1 + dot_pos(s.drop_first())
    }
}

/// The fixed-point value of the unsigned decimal `u`, given the dot at
/// position `k`: the whole digits scaled up, plus the fraction digits
/// scaled and divided by their power of ten.
pub open spec fn unsigned_coord_val(u: Seq<u8>, k: int) -> int {
    if k == u.len() {
        digits_val(u) * FP_ONE
    } else {
        digits_val(u.take(k)) * FP_ONE + (digits_val(u.skip(k + 1)) * FP_ONE) / pow10(
            (u.len() - k - 1) as nat,
        )
    }
}

/// Whether the unsigned decimal `u` with dot position `k` is well-formed:
/// one to six whole digits, at most eight fraction digits, all digits.
pub open spec fn unsigned_coord_ok(u: Seq<u8>, k: int) -> bool {
    &&& 1 <= k <= 6
    &&& all_digits(u.take(k))
    &&& (k == u.len() || (u.len() - k - 1 <= 8 && all_digits(u.skip(k + 1))))
}

/// The fixed-point coordinate the token `s` denotes, or nothing if the
/// token is not a well-formed in-range decimal.
pub open spec fn coord_spec(s: Seq<u8>) -> Option<int> {
    let neg = s.len() > 0 && s[0] == 45;
    let u = if s.len() > 0 && (s[0] == 45 || s[0] == 43) {
        s.drop_first()
    } else {
        s
    };
    let k = dot_pos(u);
    if unsigned_coord_ok(u, k) {
        let m = unsigned_coord_val(u, k);
        let v = if neg {
            -m
        } else {
            m
        };
        if -WORLD_MAX <= v <= WORLD_MAX {
            Some(v)
        } else {
            None
        }
    } else {
        None
    }
}

/// The vertex index the token `s` denotes, or nothing if the token is not
/// one to nine digits.
pub open spec fn index_spec(s: Seq<u8>) -> Option<int> {
    if 1 <= s.len() <= 9 && all_digits(s) {
        Some(digits_val(s))
    } else {
        None
    }
}

/// What one line does to the mesh built so far; see [`line_toks_spec`].
pub open spec fn line_spec(l: Seq<u8>, m: MeshV) -> Result<MeshV, MeshError> {
    line_toks_spec(split_bytes(l, 32), m)
}

/// What one tokenized line does to the mesh built so far: a `v` line
/// appends a vertex, an `f` line appends a triangle by dereferencing three
/// 1-based indices, anything else is ignored.  Every field of a `v` or `f`
/// line must parse, even fields past the third, which are otherwise unused.
pub open spec fn line_toks_spec(toks: Seq<Seq<u8>>, m: MeshV) -> Result<MeshV, MeshError> {
    if toks[0] == seq![118u8] {
        if exists|i: int| 1 <= i < toks.len() && coord_spec(#[trigger] toks[i]) is None {
            Err(MeshError::BadNumber)
        } else if toks.len() < 4 {
            Err(MeshError::ShortLine)
        } else {
            Ok(
                MeshV {
                    vertices: m.vertices.push(
                        Vec3 {
                            x: coord_spec(toks[1])->Some_0,
                            y: coord_spec(toks[2])->Some_0,
                            z: coord_spec(toks[3])->Some_0,
                        },
                    ),
                    triangles: m.triangles,
                },
            )
        }
    } else if toks[0] == seq![102u8] {
        if exists|i: int| 1 <= i < toks.len() && index_spec(#[trigger] toks[i]) is None {
            Err(MeshError::BadNumber)
        } else if toks.len() < 4 {
            Err(MeshError::ShortLine)
        } else {
            let i1 = index_spec(toks[1])->Some_0;
            let i2 = index_spec(toks[2])->Some_0;
            let i3 = index_spec(toks[3])->Some_0;
            let n = m.vertices.len();
            if 1 <= i1 <= n && 1 <= i2 <= n && 1 <= i3 <= n {
                Ok(
                    MeshV {
                        vertices: m.vertices,
                        triangles: m.triangles.push(
                            seq![
                                m.vertices[i1 - 1],
                                m.vertices[i2 - 1],
                                m.vertices[i3 - 1],
                            ],
                        ),
                    },
                )
            } else {
                Err(MeshError::BadIndex)
            }
        }
    } else {
        Ok(m)
    }
}

/// The lines `ls` folded over the mesh built so far, stopping at the first
/// error.
pub open spec fn load_rec(ls: Seq<Seq<u8>>, m: MeshV) -> Result<MeshV, MeshError>
    decreases ls.len(),
{
    if ls.len() == 0 {
        Ok(m)
    } else {
        match line_spec(ls[0], m) {
            Ok(m2) => load_rec(ls.drop_first(), m2),
            Err(e) => Err(e),
        }
    }
}

/// The mesh the text `data` denotes: its lines folded over the empty mesh.
pub open spec fn load_spec(data: Seq<u8>) -> Result<MeshV, MeshError> {
    load_rec(split_bytes(data, 10), MeshV { vertices: Seq::empty(), triangles: Seq::empty() })
}

/// The value of a load result.
pub open spec fn load_result_view(r: Result<Mesh, MeshError>) -> Result<MeshV, MeshError> {
    match r {
        Ok(m) => Ok(m@),
        Err(e) => Err(e),
    }
}

/// The mesh view built from executable vertex and triangle lists.
pub open spec fn mesh_view_of(vs: Seq<Vector>, ts: Seq<Triangle>) -> MeshV {
    MeshV {
        vertices: Seq::new(vs.len(), |i: int| vs[i]@),
        triangles: Seq::new(ts.len(), |i: int| ts[i]@),
    }
}

/// Splitting is always one piece more than the number of separators.
proof fn lemma_split_len(s: Seq<u8>, sep: u8)
    ensures
        split_bytes(s, sep).len() >= 1,
    decreases s.len(),
{
    if s.len() > 0 {
        lemma_split_len(s.drop_first(), sep);
    }
}

/// How appending one byte extends a split: a separator opens a fresh empty
/// piece, anything else lands on the end of the last piece.
proof fn lemma_split_snoc(s: Seq<u8>, sep: u8, c: u8)
    ensures
        split_bytes(s, sep).len() >= 1,
        c == sep ==> split_bytes(s.push(c), sep) == split_bytes(s, sep).push(Seq::empty()),
        c != sep ==> split_bytes(s.push(c), sep) == split_bytes(s, sep).update(
            split_bytes(s, sep).len() - 1,
            split_bytes(s, sep).last().push(c),
        ),
    decreases s.len(),
{
    lemma_split_len(s, sep);
    assert(split_bytes(Seq::<u8>::empty(), sep) =~~= seq![Seq::<u8>::empty()]);
    if s.len() == 0 {
        assert(s.push(c).drop_first() =~= Seq::<u8>::empty());
        assert(s =~= Seq::<u8>::empty());
        if c == sep {
            assert(split_bytes(s.push(c), sep) =~~= split_bytes(s, sep).push(Seq::empty()));
        } else {
            assert(split_bytes(s.push(c), sep) =~~= split_bytes(s, sep).update(
                0,
                split_bytes(s, sep).last().push(c),
            ));
        }
    } else {
        lemma_split_snoc(s.drop_first(), sep, c);
        lemma_split_len(s.drop_first(), sep);
        assert(s.push(c).drop_first() =~= s.drop_first().push(c));
        assert(s.push(c)[0] == s[0]);
        if c == sep {
            assert(split_bytes(s.push(c), sep) =~~= split_bytes(s, sep).push(Seq::empty()));
        } else {
            assert(split_bytes(s.push(c), sep) =~~= split_bytes(s, sep).update(
                split_bytes(s, sep).len() - 1,
                split_bytes(s, sep).last().push(c),
            ));
        }
    }
}

/// Splits `data` at every `sep`, as [`split_bytes`] describes.
fn split_slice(data: &[u8], sep: u8) -> (r: Vec<Vec<u8>>)
    ensures
        r.deep_view() == split_bytes(data@, sep),
{
    let mut out: Vec<Vec<u8>> = Vec::new();
    let mut cur: Vec<u8> = Vec::new();
    let mut i: usize = 0;
    proof {
        assert(out.deep_view().push(cur@) =~~= split_bytes(data@.take(0), sep));
    }
    while i < data.len()
        invariant
            i <= data.len(),
            out.deep_view().push(cur@) == split_bytes(data@.take(i as int), sep),
        decreases data.len() - i,
    {
        let c = data[i];
        proof {
            lemma_split_snoc(data@.take(i as int), sep, c);
            assert(data@.take(i + 1) =~= data@.take(i as int).push(data@[i as int]));
        }
        let ghost g = out.deep_view().push(cur@);
        if c == sep {
            out.push(cur);
            cur = Vec::new();
            proof {
                assert(out.deep_view() =~~= g);
                assert(out.deep_view().push(cur@) =~~= g.push(Seq::<u8>::empty()));
            }
        } else {
            cur.push(c);
            proof {
                assert(out.deep_view().push(cur@) =~~= g.update(g.len() - 1, g.last().push(c)));
            }
        }
        i += 1;
    }
    let ghost g = out.deep_view().push(cur@);
    out.push(cur);
    proof {
        assert(out.deep_view() =~~= g);
        assert(data@.take(data@.len() as int) =~= data@);
    }
    out
}

/// `pow10` stays between one and a billion for exponents up to nine.
proof fn lemma_pow10_facts(n: nat)
    requires
        n <= 9,
    ensures
        1 <= pow10(n) <= 1_000_000_000,
{
    assert(pow10(0) == 1);
    assert(pow10(1) == 10);
    assert(pow10(2) == 100);
    assert(pow10(3) == 1000);
    assert(pow10(4) == 10000);
    assert(pow10(5) == 100000);
    assert(pow10(6) == 1000000);
    assert(pow10(7) == 10000000);
    assert(pow10(8) == 100000000);
    assert(pow10(9) == 1_000_000_000);
}

/// Reads the digit run `t[start..end]`: its value if every byte is a
/// digit, nothing otherwise.
fn scan_digits(t: &Vec<u8>, start: usize, end: usize) -> (r: Option<i64>)
    requires
        start <= end <= t@.len(),
        end - start <= 9,
    ensures
        r is None <==> !all_digits(t@.subrange(start as int, end as int)),
        r matches Some(v) ==> {
            &&& v == digits_val(t@.subrange(start as int, end as int))
            &&& 0 <= v < pow10((end - start) as nat)
            &&& v < 1_000_000_000
        },
{
    let ghost s = t@.subrange(start as int, end as int);
    let mut acc: i64 = 0;
    let mut i: usize = start;
    while i < end
        invariant
            start <= i <= end <= t@.len(),
            end - start <= 9,
            s == t@.subrange(start as int, end as int),
            all_digits(t@.subrange(start as int, i as int)),
            acc == digits_val(t@.subrange(start as int, i as int)),
            0 <= acc < pow10((i - start) as nat),
        decreases end - i,
    {
        proof {
            lemma_pow10_facts((i - start) as nat);
            lemma_pow10_facts((i + 1 - start) as nat);
        }
        let c = t[i];
        if c < 48 || c > 57 {
            proof {
                assert(s[i - start] == t@[i as int]);
            }
            return None;
        }
        proof {
            assert(t@.subrange(start as int, i + 1) =~= t@.subrange(start as int, i as int).push(
                t@[i as int],
            ));
            assert(t@.subrange(start as int, i + 1).drop_last() =~= t@.subrange(
                start as int,
                i as int,
            ));
        }
        acc = acc * 10 + ((c - 48) as i64);
        i += 1;
    }
    proof {
        lemma_pow10_facts((end - start) as nat);
    }
    Some(acc)
}

/// The index of the first dot is what the scan that stops at the first dot
/// finds.
proof fn lemma_dot_pos_char(u: Seq<u8>, k: int)
    requires
        0 <= k <= u.len(),
        forall|j: int| 0 <= j < k ==> u[j] != 46,
        k == u.len() || u[k] == 46,
    ensures
        dot_pos(u) == k,
    decreases u.len(),
{
    if u.len() == 0 {
    } else if u[0] == 46 {
        assert(k == 0);
    } else {
        assert(forall|j: int| 0 <= j < k - 1 ==> u.drop_first()[j] == u[j + 1]);
        lemma_dot_pos_char(u.drop_first(), k - 1);
    }
}

/// Ten to the `n`, executable.
fn pow10_i64(n: usize) -> (r: i64)
    requires
        n <= 9,
    ensures
        r == pow10(n as nat),
        1 <= r <= 1_000_000_000,
{
    proof {
        lemma_pow10_facts(n as nat);
        assert(pow10(0) == 1);
        assert(pow10(1) == 10);
        assert(pow10(2) == 100);
        assert(pow10(3) == 1000);
        assert(pow10(4) == 10000);
        assert(pow10(5) == 100000);
        assert(pow10(6) == 1000000);
        assert(pow10(7) == 10000000);
        assert(pow10(8) == 100000000);
        assert(pow10(9) == 1_000_000_000);
    }
    if n == 0 {
        1
    } else if n == 1 {
        10
    } else if n == 2 {
        100
    } else if n == 3 {
        1000
    } else if n == 4 {
        10000
    } else if n == 5 {
        100000
    } else if n == 6 {
        1000000
    } else if n == 7 {
        10000000
    } else if n == 8 {
        100000000
    } else {
        1000000000
    }
}

/// Parses one coordinate token, as [`coord_spec`] describes.
fn parse_coord(t: &Vec<u8>) -> (r: Option<i64>)
    ensures
        r is None <==> coord_spec(t@) is None,
        r matches Some(v) ==> coord_spec(t@) == Some(v as int),
{
    let len = t.len();
    let has_sign = len > 0 && (t[0] == 45 || t[0] == 43);
    let neg = len > 0 && t[0] == 45;
    let start: usize = if has_sign {
        1
    } else {
        0
    };
    let ghost u = if has_sign {
        t@.drop_first()
    } else {
        t@
    };
    proof {
        assert(u =~= t@.subrange(start as int, len as int));
    }

    let mut k: usize = start;
    while k < len && t[k] != 46
        invariant
            start <= k <= len == t@.len(),
            forall|j: int| start <= j < k ==> t@[j] != 46,
        decreases len - k,
    {
        k += 1;
    }
    proof {
        lemma_dot_pos_char(u, k - start);
    }

    let ip_len = k - start;
    if ip_len < 1 || ip_len > 6 {
        return None;
    }
    let ipv = match scan_digits(t, start, k) {
        Some(v) => v,
        None => {
            proof {
                assert(u.take(k - start) =~= t@.subrange(start as int, k as int));
            }
            return None;
        },
    };
    proof {
        assert(u.take(k - start) =~= t@.subrange(start as int, k as int));
        lemma_pow10_facts((k - start) as nat);
    }

    let m: i64;
    if k == len {
        m = ipv * FP_ONE;
    } else {
        let fl = len - k - 1;
        if fl > 8 {
            return None;
        }
        let fv = match scan_digits(t, k + 1, len) {
            Some(v) => v,
            None => {
                proof {
                    assert(u.skip(k - start + 1) =~= t@.subrange(k + 1, len as int));
                }
                return None;
            },
        };
        proof {
            assert(u.skip(k - start + 1) =~= t@.subrange(k + 1, len as int));
        }
        let p = pow10_i64(fl);
        let frac = tdiv_i64(fv * FP_ONE, p);
        proof {
            assert(tdiv(fv as int * FP_ONE, p as int) == (fv as int * FP_ONE) / (p as int));
        }
        m = ipv * FP_ONE + frac;
    }
    let v = if neg {
        -m
    } else {
        m
    };
    if v < -WORLD_MAX || v > WORLD_MAX {
        return None;
    }
    Some(v)
}

/// Parses one face-index token, as [`index_spec`] describes.
fn parse_index(t: &Vec<u8>) -> (r: Option<i64>)
    ensures
        r is None <==> index_spec(t@) is None,
        r matches Some(v) ==> index_spec(t@) == Some(v as int) && 0 <= v < 1_000_000_000,
{
    let len = t.len();
    if len < 1 || len > 9 {
        return None;
    }
    proof {
        assert(t@.subrange(0, len as int) =~= t@);
    }
    scan_digits(t, 0, len)
}

impl Mesh {
    /// Loads a mesh from the bytes of a text, as [`load_spec`] describes:
    /// the vertices of the `v` lines in file order, and the triangles of
    /// the `f` lines built by dereferencing their 1-based indices.  Stops
    /// at the first malformed field, short record or dangling index.
    pub fn load(data: &[u8]) -> (r: Result<Mesh, MeshError>)
        ensures
            load_result_view(r) == load_spec(data@),
            r is Ok <==> load_spec(data@) is Ok,
    {
        let lines = split_slice(data, 10);
        let mut vertices: Vec<Vector> = Vec::new();
        let mut triangles: Vec<Triangle> = Vec::new();
        let mut li: usize = 0;
        proof {
            assert(mesh_view_of(vertices@, triangles@).vertices =~~= Seq::<Vec3>::empty());
            assert(mesh_view_of(vertices@, triangles@).triangles =~~= Seq::<Seq<Vec3>>::empty());
            assert(lines.deep_view().skip(0) =~~= lines.deep_view());
        }
        while li < lines.len()
            invariant
                li <= lines@.len(),
                lines.deep_view() == split_bytes(data@, 10),
                load_spec(data@) == load_rec(
                    lines.deep_view().skip(li as int),
                    mesh_view_of(vertices@, triangles@),
                ),
            decreases lines@.len() - li,
        {
            let ghost pre = mesh_view_of(vertices@, triangles@);
            let toks = split_slice(lines[li].as_slice(), 32);
            proof {
                assert(lines.deep_view()[li as int] == lines@[li as int]@);
                lemma_split_len(lines@[li as int]@, 32);
            }
            match apply_line(&toks, &mut vertices, &mut triangles) {
                Some(e) => {
                    proof {
                        assert(load_rec(lines.deep_view().skip(li as int), pre) == Err::<
                            MeshV,
                            MeshError,
                        >(e));
                    }
                    return Err(e);
                },
                None => {
                },
            }
            proof {
                assert(lines.deep_view().skip(li as int).drop_first() =~~= lines.deep_view().skip(
                    li + 1,
                ));
            }
            li += 1;
        }
        proof {
            assert(lines.deep_view().skip(li as int) =~~= Seq::<Seq<u8>>::empty());
        }
        Ok(Mesh { vertices, triangles })
    }
}

/// Applies one tokenized line to the mesh built so far, as
/// [`line_toks_spec`] describes; gives back the error, if any.
fn apply_line(toks: &Vec<Vec<u8>>, vertices: &mut Vec<Vector>, triangles: &mut Vec<Triangle>) -> (r:
    Option<MeshError>)
    requires
        toks@.len() >= 1,
    ensures
        match r {
            None => line_toks_spec(toks.deep_view(), mesh_view_of(old(vertices)@, old(triangles)@))
                == Ok::<MeshV, MeshError>(
                mesh_view_of(final(vertices)@, final(triangles)@),
            ),
            Some(e) => {
                &&& line_toks_spec(
                    toks.deep_view(),
                    mesh_view_of(old(vertices)@, old(triangles)@),
                ) == Err::<MeshV, MeshError>(e)
                &&& final(vertices)@ == old(vertices)@
                &&& final(triangles)@ == old(triangles)@
            },
        },
{
    let first = &toks[0];
    let is_v = first.len() == 1 && first[0] == 118;
    let is_f = first.len() == 1 && first[0] == 102;
    proof {
        if is_v {
            assert(toks.deep_view()[0] =~= seq![118u8]);
        } else {
            assert(toks.deep_view()[0] != seq![118u8]);
        }
        if is_f {
            assert(toks.deep_view()[0] =~= seq![102u8]);
        } else {
            assert(toks.deep_view()[0] != seq![102u8]);
        }
    }
    if is_v {
        let mut cs: Vec<i64> = Vec::new();
        let mut ti: usize = 1;
        while ti < toks.len()
            invariant
                1 <= ti <= toks@.len(),
                cs@.len() == ti - 1,
                toks.deep_view()[0] == seq![118u8],
                vertices@ == old(vertices)@,
                triangles@ == old(triangles)@,
                forall|i: int|
                    1 <= i < ti ==> coord_spec(#[trigger] toks.deep_view()[i]) == Some(
                        cs@[i - 1] as int,
                    ),
            decreases toks@.len() - ti,
        {
            proof {
                assert(toks.deep_view()[ti as int] =~= toks@[ti as int]@);
            }
            match parse_coord(&toks[ti]) {
                Some(v) => {
                    cs.push(v);
                },
                None => {
                    proof {
                        assert(coord_spec(toks.deep_view()[ti as int]) is None);
                    }
                    return Some(MeshError::BadNumber);
                },
            }
            ti += 1;
        }
        if toks.len() < 4 {
            return Some(MeshError::ShortLine);
        }
        vertices.push(Vector { x: cs[0], y: cs[1], z: cs[2] });
        proof {
            let m2 = line_toks_spec(
                toks.deep_view(),
                mesh_view_of(old(vertices)@, old(triangles)@),
            )->Ok_0;
            assert(mesh_view_of(final(vertices)@, final(triangles)@).vertices =~~= m2.vertices);
            assert(mesh_view_of(final(vertices)@, final(triangles)@).triangles
                =~~= m2.triangles);
        }
        None
    } else if is_f {
        let mut ids: Vec<i64> = Vec::new();
        let mut ti: usize = 1;
        while ti < toks.len()
            invariant
                1 <= ti <= toks@.len(),
                ids@.len() == ti - 1,
                toks.deep_view()[0] == seq![102u8],
                vertices@ == old(vertices)@,
                triangles@ == old(triangles)@,
                forall|i: int|
                    1 <= i < ti ==> index_spec(#[trigger] toks.deep_view()[i]) == Some(
                        ids@[i - 1] as int,
                    ),
                forall|i: int| 0 <= i < ids@.len() ==> 0 <= #[trigger] ids@[i] < 1_000_000_000,
            decreases toks@.len() - ti,
        {
            proof {
                assert(toks.deep_view()[ti as int] =~= toks@[ti as int]@);
            }
            match parse_index(&toks[ti]) {
                Some(v) => {
                    ids.push(v);
                },
                None => {
                    proof {
                        assert(index_spec(toks.deep_view()[ti as int]) is None);
                    }
                    return Some(MeshError::BadNumber);
                },
            }
            ti += 1;
        }
        if toks.len() < 4 {
            return Some(MeshError::ShortLine);
        }
        let i1 = ids[0];
        let i2 = ids[1];
        let i3 = ids[2];
        let n = vertices.len();
        if i1 < 1 || i2 < 1 || i3 < 1 || (i1 as usize) > n || (i2 as usize) > n || (i3 as usize)
            > n {
            return Some(MeshError::BadIndex);
        }
        let v1 = vertices[(i1 as usize) - 1];
        let v2 = vertices[(i2 as usize) - 1];
        let v3 = vertices[(i3 as usize) - 1];
        triangles.push(Triangle::new([v1, v2, v3]));
        proof {
            let m2 = line_toks_spec(
                toks.deep_view(),
                mesh_view_of(old(vertices)@, old(triangles)@),
            )->Ok_0;
            assert(mesh_view_of(final(vertices)@, final(triangles)@).vertices =~~= m2.vertices);
            assert(mesh_view_of(final(vertices)@, final(triangles)@).triangles
                =~~= m2.triangles);
        }
        None
    } else {
        proof {
            assert(mesh_view_of(final(vertices)@, final(triangles)@) =~~= mesh_view_of(
                old(vertices)@,
                old(triangles)@,
            ));
        }
        None
    }
}

} // verus!
