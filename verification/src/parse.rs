use vstd::prelude::*;
use crate::error::RendererError;
use crate::fixed::{FX_ONE, FX_MAX};
use crate::mesh::{Color, Triangle, TriS, Mesh, tri_views};
use crate::vector::{Vec3D, Vec3S};

verus! {

// --- The grammar of the mesh text format, as specification functions ---
//
// The format is line-oriented.  A line starting with `v ` appends a
// vertex, one starting with `vn` a vertex normal (parsed for
// compatibility, not consumed here), one starting with `f` a face of
// exactly three 1-based vertex indices (bare, or slash-delimited groups
// of which only the first component counts).  All other lines are
// ignored.  Numbers are signed decimals with an optional fraction,
// read into fixed point with truncation (fraction digits beyond the
// ninth are ignored); a value out of the working range, a malformed
// number, an out-of-range index or a face without exactly three groups
// is a parse error that aborts the load.

/// ASCII whitespace, as far as trimming is concerned.
pub open spec fn is_ws(b: u8) -> bool {
    b == 32 || b == 9 || b == 13 || b == 10
}

/// An ASCII decimal digit.
pub open spec fn is_digit(b: u8) -> bool {
    48 <= b <= 57
}

/// The first index at or after `i` where `sep` occurs, or the length if
/// it does not.
pub open spec fn find_from(s: Seq<u8>, sep: u8, i: int) -> int
    decreases s.len() - i,
{
    if i < 0 || i >= s.len() {
        s.len() as int
    } else if s[i] == sep {
        i
    } else {
        find_from(s, sep, i + 1)
    }
}

/// Splits `s` from index `i` at every occurrence of `sep`, keeping
/// empty pieces (the semantics of splitting on a one-character
/// separator); `cur` is the piece read so far.
pub open spec fn split_from(s: Seq<u8>, sep: u8, i: int, cur: Seq<u8>) -> Seq<Seq<u8>>
    decreases s.len() - i,
{
    if i < 0 || i >= s.len() {
        seq![cur]
    } else if s[i] == sep {
        seq![cur] + split_from(s, sep, i + 1, seq![])
    } else {
        split_from(s, sep, i + 1, cur.push(s[i]))
    }
}

/// The first index at or after `i` holding a non-whitespace byte, or
/// the length.
pub open spec fn trim_start_idx(s: Seq<u8>, i: int) -> int
    decreases s.len() - i,
{
    if i < 0 || i >= s.len() {
        s.len() as int
    } else if is_ws(s[i]) {
        trim_start_idx(s, i + 1)
    } else {
        i
    }
}

/// The index just after the last non-whitespace byte before `j`, or 0.
pub open spec fn trim_end_idx(s: Seq<u8>, j: int) -> int
    decreases j,
{
    if j <= 0 {
        0
    } else if j > s.len() {
        trim_end_idx(s, s.len() as int)
    } else if is_ws(s[j - 1]) {
        trim_end_idx(s, j - 1)
    } else {
        j
    }
}

/// `s` with leading and trailing ASCII whitespace removed.
pub open spec fn trim_s(s: Seq<u8>) -> Seq<u8> {
    let a = trim_start_idx(s, 0);
    let b = trim_end_idx(s, s.len() as int);
    if a <= b {
        s.subrange(a, b)
    } else {
        seq![]
    }
}

/// Every byte of `t` is a decimal digit.
pub open spec fn all_digits(t: Seq<u8>) -> bool {
    forall|k: int| 0 <= k < t.len() ==> is_digit(#[trigger] t[k])
}

/// The number the digit string `t` denotes (most significant first).
pub open spec fn digits_val(t: Seq<u8>) -> int
    decreases t.len(),
{
    if t.len() == 0 {
        0
    } else {
        digits_val(t.drop_last()) * 10 + (t.last() - 48)
    }
}

/// Ten to the `k`.
pub open spec fn pow10(k: nat) -> int
    decreases k,
{
    if k == 0 {
        1
    } else {
        10 * pow10((k - 1) as nat)
    }
}

/// A digit string denotes a nonnegative number.
pub proof fn lemma_digits_val_nonneg(t: Seq<u8>)
    requires
        all_digits(t),
    ensures
        digits_val(t) >= 0,
    decreases t.len(),
{
    if t.len() > 0 {
        assert(all_digits(t.drop_last()));
        lemma_digits_val_nonneg(t.drop_last());
    }
}

/// A prefix of a digit string denotes no more than the whole string.
pub proof fn lemma_digits_val_prefix_le(t: Seq<u8>, k: int)
    requires
        all_digits(t),
        0 <= k <= t.len(),
    ensures
        digits_val(t.take(k)) <= digits_val(t),
    decreases t.len() - k,
{
    if k == t.len() {
        assert(t.take(k) =~= t);
    } else {
        assert(t.take(k + 1).drop_last() =~= t.take(k));
        assert(t.take(k + 1).last() == t[k]);
        assert(all_digits(t.take(k)));
        lemma_digits_val_nonneg(t.take(k));
        lemma_digits_val_prefix_le(t, k + 1);
    }
}

/// A digit string of length `n` denotes less than `10^n`.
pub proof fn lemma_digits_val_upper(t: Seq<u8>)
    requires
        all_digits(t),
    ensures
        digits_val(t) < pow10(t.len()),
    decreases t.len(),
{
    if t.len() > 0 {
        assert(all_digits(t.drop_last()));
        lemma_digits_val_upper(t.drop_last());
    }
}

/// Powers of ten are positive.
pub proof fn lemma_pow10_pos(k: nat)
    ensures
        pow10(k) >= 1,
    decreases k,
{
    if k > 0 {
        lemma_pow10_pos((k - 1) as nat);
    }
}

/// Up to the ninth power, ten to the `k` is at most a billion.
pub proof fn lemma_pow10_le9(k: nat)
    requires
        k <= 9,
    ensures
        pow10(k) <= 1_000_000_000,
    decreases 9 - k,
{
    if k == 9 {
        assert(pow10(9) == 1_000_000_000) by {
            assert(pow10(0) == 1);
            assert(pow10(1) == 10);
            assert(pow10(2) == 100);
            assert(pow10(3) == 1000);
            assert(pow10(4) == 10000);
            assert(pow10(5) == 100000);
            assert(pow10(6) == 1000000);
            assert(pow10(7) == 10000000);
            assert(pow10(8) == 100000000);
        }
    } else {
        lemma_pow10_pos(k);
        lemma_pow10_le9(k + 1);
    }
}

/// The magnitude part of a fixed-point decimal: digits, an optional
/// dot, fraction digits.  Out-of-range or malformed text is `None`;
/// only the first nine fraction digits carry into the value.
pub open spec fn parse_fixed_mag(u: Seq<u8>) -> Option<int> {
    let d = find_from(u, 46, 0);
    let ip = u.subrange(0, d);
    let frac = if d < u.len() { u.subrange(d + 1, u.len() as int) } else { seq![] };
    if find_from(frac, 46, 0) < frac.len() {
        None
    } else if !all_digits(ip) || !all_digits(frac) {
        None
    } else if ip.len() == 0 && frac.len() == 0 {
        None
    } else {
        let frac9 = if frac.len() > 9 { frac.take(9) } else { frac };
        let value = digits_val(ip) * FX_ONE + (digits_val(frac9) * FX_ONE) / pow10(frac9.len());
        if value > FX_MAX {
            None
        } else {
            Some(value)
        }
    }
}

/// A signed fixed-point decimal: an optional sign, then the magnitude.
pub open spec fn parse_fixed_s(t: Seq<u8>) -> Option<int> {
    if t.len() > 0 && (t[0] == 43 || t[0] == 45) {
        match parse_fixed_mag(t.subrange(1, t.len() as int)) {
            Some(m) => Some(if t[0] == 45 { -m } else { m }),
            None => None,
        }
    } else {
        parse_fixed_mag(t)
    }
}

/// A 1-based vertex index over a list of `nverts` vertices, returned
/// 0-based; digits only, and in range, or `None`.
pub open spec fn parse_index_s(t: Seq<u8>, nverts: int) -> Option<int> {
    if t.len() == 0 || !all_digits(t) {
        None
    } else if 1 <= digits_val(t) <= nverts {
        Some(digits_val(t) - 1)
    } else {
        None
    }
}

/// The part of an index group before its first slash (the whole group
/// when it has none): the vertex-index component.
pub open spec fn first_part(g: Seq<u8>) -> Seq<u8> {
    g.subrange(0, find_from(g, 47, 0))
}

/// The line appends a vertex: it starts with `v` and a space.
pub open spec fn starts_v_space(l: Seq<u8>) -> bool {
    l.len() >= 2 && l[0] == 118 && l[1] == 32
}

/// The line appends a vertex normal: it starts with `vn`.
pub open spec fn starts_vn(l: Seq<u8>) -> bool {
    l.len() >= 2 && l[0] == 118 && l[1] == 110
}

/// The line is a face record: it starts with `f`.
pub open spec fn starts_f(l: Seq<u8>) -> bool {
    l.len() >= 1 && l[0] == 102
}

/// A vertex (or normal) record: after trimming and splitting on spaces,
/// the record tag and at least three numbers; further tokens are
/// ignored.
pub open spec fn parse_vertex_s(l: Seq<u8>) -> Option<Vec3S> {
    let toks = split_from(trim_s(l), 32, 0, seq![]);
    if toks.len() < 4 {
        None
    } else {
        match (parse_fixed_s(toks[1]), parse_fixed_s(toks[2]), parse_fixed_s(toks[3])) {
            (Some(x), Some(y), Some(z)) => Some(Vec3S { x: x, y: y, z: z }),
            _ => None,
        }
    }
}

/// A face record: the tag and exactly three index groups; each group's
/// vertex-index component selects a point of the triangle, in file
/// order.  The color starts out black and is overwritten by shading.
pub open spec fn parse_face_s(l: Seq<u8>, verts: Seq<Vec3S>) -> Option<TriS> {
    let toks = split_from(trim_s(l), 32, 0, seq![]);
    if toks.len() != 4 {
        None
    } else {
        match (
            parse_index_s(first_part(toks[1]), verts.len() as int),
            parse_index_s(first_part(toks[2]), verts.len() as int),
            parse_index_s(first_part(toks[3]), verts.len() as int),
        ) {
            (Some(a), Some(b), Some(c)) => Some(TriS {
                p0: verts[a],
                p1: verts[b],
                p2: verts[c],
                color: Color { r: 0, g: 0, b: 0 },
            }),
            _ => None,
        }
    }
}

/// Processes the lines from index `i` on, with the vertices and
/// triangles gathered so far; `None` is a fatal parse error (no partial
/// mesh is returned).
pub open spec fn parse_mesh_from(ls: Seq<Seq<u8>>, i: int, verts: Seq<Vec3S>, tris: Seq<TriS>) -> Option<Seq<TriS>>
    decreases ls.len() - i,
{
    if i < 0 || i >= ls.len() {
        Some(tris)
    } else {
        let l = ls[i];
        if starts_v_space(l) {
            match parse_vertex_s(l) {
                Some(v) => parse_mesh_from(ls, i + 1, verts.push(v), tris),
                None => None,
            }
        } else if starts_vn(l) {
            match parse_vertex_s(l) {
                Some(v) => parse_mesh_from(ls, i + 1, verts, tris),
                None => None,
            }
        } else if starts_f(l) {
            match parse_face_s(l, verts) {
                Some(t) => parse_mesh_from(ls, i + 1, verts, tris.push(t)),
                None => None,
            }
        } else {
            parse_mesh_from(ls, i + 1, verts, tris)
        }
    }
}

/// The triangles the mesh text denotes: its lines (split on newlines),
/// processed in order from an empty vertex list.
pub open spec fn parse_mesh_s(src: Seq<u8>) -> Option<Seq<TriS>> {
    parse_mesh_from(split_from(src, 10, 0, seq![]), 0, seq![], seq![])
}

/// The views of a sequence of byte vectors.
pub open spec fn views_of(r: Seq<Vec<u8>>) -> Seq<Seq<u8>> {
    r.map_values(|v: Vec<u8>| v@)
}

/// The views of a sequence of vectors.
pub open spec fn vec_views(r: Seq<Vec3D>) -> Seq<Vec3S> {
    r.map_values(|v: Vec3D| v@)
}

// --- The executable parser, each function exact against the grammar ---

/// The first index at or after `from` where `sep` occurs, or the
/// length.
fn find_byte(s: &Vec<u8>, sep: u8, from: usize) -> (r: usize)
    requires
        from <= s@.len(),
    ensures
        r as int == find_from(s@, sep, from as int),
        from <= r <= s@.len(),
{
    let mut i: usize = from;
    while i < s.len()
        invariant
            from <= i <= s@.len(),
            find_from(s@, sep, from as int) == find_from(s@, sep, i as int),
        decreases s@.len() - i,
    {
        if s[i] == sep {
            return i;
        }
        i = i + 1;
    }
    i
}

/// Copies `s[a..b]` into a fresh vector.
fn copy_range(s: &Vec<u8>, a: usize, b: usize) -> (r: Vec<u8>)
    requires
        a <= b <= s@.len(),
    ensures
        r@ == s@.subrange(a as int, b as int),
{
    let mut r: Vec<u8> = Vec::new();
    let mut i: usize = a;
    while i < b
        invariant
            a <= i <= b <= s@.len(),
            r@ =~= s@.subrange(a as int, i as int),
        decreases b - i,
    {
        r.push(s[i]);
        proof {
            assert(r@ =~= s@.subrange(a as int, i + 1));
        }
        i = i + 1;
    }
    proof {
        assert(r@ =~= s@.subrange(a as int, b as int));
    }
    r
}

/// Whether every byte is a decimal digit.
fn check_all_digits(t: &Vec<u8>) -> (r: bool)
    ensures
        r == all_digits(t@),
{
    let mut i: usize = 0;
    while i < t.len()
        invariant
            0 <= i <= t@.len(),
            forall|k: int| 0 <= k < i ==> is_digit(#[trigger] t@[k]),
        decreases t@.len() - i,
    {
        let b: u8 = t[i];
        if b < 48 || b > 57 {
            return false;
        }
        i = i + 1;
    }
    true
}

/// The value of a digit string, unless it exceeds `limit`.
fn parse_digits_bounded(t: &Vec<u8>, limit: u64) -> (r: Option<u64>)
    requires
        all_digits(t@),
    ensures
        match r {
            Some(v) => v as int == digits_val(t@) && v <= limit,
            None => digits_val(t@) > limit,
        },
{
    let mut acc: u128 = 0;
    let mut i: usize = 0;
    while i < t.len()
        invariant
            0 <= i <= t@.len(),
            all_digits(t@),
            acc as int == digits_val(t@.take(i as int)),
            acc <= limit,
        decreases t@.len() - i,
    {
        let d: u8 = t[i];
        proof {
            assert(is_digit(t@[i as int]));
            assert(t@.take(i + 1).drop_last() =~= t@.take(i as int));
            assert(t@.take(i + 1).last() == t@[i as int]);
        }
        acc = acc * 10 + ((d - 48) as u128);
        if acc > limit as u128 {
            proof {
                lemma_digits_val_prefix_le(t@, i + 1);
            }
            return None;
        }
        i = i + 1;
    }
    proof {
        assert(t@.take(t@.len() as int) =~= t@);
    }
    Some(acc as u64)
}

/// Ten to the `k`, for small `k`.
fn pow10_u64(k: usize) -> (r: u64)
    requires
        k <= 9,
    ensures
        r as int == pow10(k as nat),
        r >= 1,
{
    proof {
        assert(pow10(0) == 1);
        assert(pow10(1) == 10);
        assert(pow10(2) == 100);
        assert(pow10(3) == 1000);
        assert(pow10(4) == 10000);
        assert(pow10(5) == 100000);
        assert(pow10(6) == 1000000);
        assert(pow10(7) == 10000000);
        assert(pow10(8) == 100000000);
        assert(pow10(9) == 1000000000);
    }
    if k == 0 { 1 }
    else if k == 1 { 10 }
    else if k == 2 { 100 }
    else if k == 3 { 1000 }
    else if k == 4 { 10000 }
    else if k == 5 { 100000 }
    else if k == 6 { 1000000 }
    else if k == 7 { 10000000 }
    else if k == 8 { 100000000 }
    else { 1000000000 }
}

/// Whether the byte is ASCII whitespace.
fn is_ws_byte(b: u8) -> (r: bool)
    ensures
        r == is_ws(b),
{
    b == 32 || b == 9 || b == 13 || b == 10
}

/// Whether the byte at `i` exists and is ASCII whitespace.
fn ws_at(s: &Vec<u8>, i: usize) -> (r: bool)
    ensures
        r == (i < s@.len() && is_ws(s@[i as int])),
{
    if i < s.len() {
        is_ws_byte(s[i])
    } else {
        false
    }
}

/// The vector with leading and trailing ASCII whitespace removed.
fn trim_bytes(s: &Vec<u8>) -> (r: Vec<u8>)
    ensures
        r@ == trim_s(s@),
{
    let n: usize = s.len();
    let mut a: usize = 0;
    while ws_at(s, a)
        invariant
            0 <= a <= s@.len(),
            n == s@.len(),
            trim_start_idx(s@, 0) == trim_start_idx(s@, a as int),
        decreases s@.len() - a,
    {
        a = a + 1;
    }
    let mut b: usize = s.len();
    while b > 0 && ws_at(s, b - 1)
        invariant
            0 <= b <= s@.len(),
            trim_end_idx(s@, s@.len() as int) == trim_end_idx(s@, b as int),
        decreases b,
    {
        b = b - 1;
    }
    if a <= b {
        copy_range(s, a, b)
    } else {
        proof {
            assert(trim_s(s@) =~= Seq::<u8>::empty());
        }
        Vec::new()
    }
}

/// Splits on every occurrence of `sep`, keeping empty pieces.
fn split_bytes(s: &[u8], sep: u8) -> (r: Vec<Vec<u8>>)
    ensures
        views_of(r@) == split_from(s@, sep, 0, seq![]),
{
    let mut res: Vec<Vec<u8>> = Vec::new();
    let mut cur: Vec<u8> = Vec::new();
    let mut i: usize = 0;
    while i < s.len()
        invariant
            0 <= i <= s@.len(),
            split_from(s@, sep, 0, seq![]) == views_of(res@) + split_from(s@, sep, i as int, cur@),
        decreases s@.len() - i,
    {
        if s[i] == sep {
            let ghost oldres = res@;
            let ghost oldcur = cur@;
            res.push(cur);
            cur = Vec::new();
            proof {
                assert(views_of(res@) =~= views_of(oldres).push(oldcur));
            }
        } else {
            cur.push(s[i]);
        }
        i = i + 1;
    }
    let ghost oldres = res@;
    let ghost oldcur = cur@;
    res.push(cur);
    proof {
        assert(views_of(res@) =~= views_of(oldres).push(oldcur));
        assert(views_of(oldres) + split_from(s@, sep, s@.len() as int, oldcur)
            =~= views_of(oldres).push(oldcur));
    }
    res
}

/// The magnitude of a fixed-point decimal, or `None` exactly when the
/// grammar says so.
fn parse_fixed_mag_exec(u: &Vec<u8>) -> (r: Option<i64>)
    ensures
        match r {
            Some(v) => parse_fixed_mag(u@) == Some(v as int) && 0 <= v <= FX_MAX,
            None => parse_fixed_mag(u@) == None::<int>,
        },
{
    let n: usize = u.len();
    let d: usize = find_byte(u, 46, 0);
    let ip = copy_range(u, 0, d);
    let frac = if d < n {
        copy_range(u, d + 1, n)
    } else {
        Vec::new()
    };
    proof {
        if d >= n {
            assert(frac@ =~= Seq::<u8>::empty());
        }
    }
    if find_byte(&frac, 46, 0) < frac.len() {
        return None;
    }
    if !check_all_digits(&ip) {
        return None;
    }
    if !check_all_digits(&frac) {
        return None;
    }
    if ip.len() == 0 && frac.len() == 0 {
        return None;
    }
    let frac9 = if frac.len() > 9 {
        copy_range(&frac, 0, 9)
    } else {
        frac
    };
    proof {
        assert(all_digits(frac9@));
        lemma_digits_val_upper(frac9@);
        lemma_pow10_le9(frac9@.len());
        lemma_digits_val_nonneg(frac9@);
        lemma_digits_val_nonneg(ip@);
    }
    let fv: u64 = match parse_digits_bounded(&frac9, 1_000_000_000) {
        Some(v) => v,
        None => {
            proof {
                assert(false);
            }
            0
        },
    };
    let p: u64 = pow10_u64(frac9.len());
    let fr: u64 = (fv * 65536) / p;
    proof {
        vstd::arithmetic::div_mod::lemma_div_pos_is_pos(digits_val(frac9@) * FX_ONE, pow10(frac9@.len()));
    }
    let ipv: u64 = match parse_digits_bounded(&ip, FX_MAX as u64) {
        Some(v) => v,
        None => {
            return None;
        },
    };
    let val: u64 = ipv * 65536 + fr;
    if val > FX_MAX as u64 {
        return None;
    }
    Some(val as i64)
}

/// A signed fixed-point decimal, or `None` exactly when the grammar
/// says so.
fn parse_fixed(t: &Vec<u8>) -> (r: Option<i64>)
    ensures
        match r {
            Some(v) => parse_fixed_s(t@) == Some(v as int),
            None => parse_fixed_s(t@) == None::<int>,
        },
{
    let n: usize = t.len();
    let mut start: usize = 0;
    let mut neg: bool = false;
    if n > 0 && (t[0] == 43 || t[0] == 45) {
        start = 1;
        neg = t[0] == 45;
    }
    let u = copy_range(t, start, n);
    proof {
        if start == 0 {
            assert(u@ =~= t@);
        }
    }
    match parse_fixed_mag_exec(&u) {
        Some(m) => Some(if neg { -m } else { m }),
        None => None,
    }
}

/// A 1-based vertex index over `nverts` vertices, returned 0-based, or
/// `None` exactly when the grammar says so.
fn parse_index(t: &Vec<u8>, nverts: usize) -> (r: Option<usize>)
    ensures
        match r {
            Some(i) => parse_index_s(t@, nverts as int) == Some(i as int) && i < nverts,
            None => parse_index_s(t@, nverts as int) == None::<int>,
        },
{
    if t.len() == 0 {
        return None;
    }
    if !check_all_digits(t) {
        return None;
    }
    match parse_digits_bounded(t, nverts as u64) {
        Some(v) => {
            if v >= 1 {
                Some((v - 1) as usize)
            } else {
                None
            }
        },
        None => None,
    }
}

/// A vertex record, or `None` exactly when the grammar says so.
fn parse_vertex(line: &Vec<u8>) -> (r: Option<Vec3D>)
    ensures
        match r {
            Some(v) => parse_vertex_s(line@) == Some(v@),
            None => parse_vertex_s(line@) == None::<Vec3S>,
        },
{
    let tl = trim_bytes(line);
    let toks = split_bytes(tl.as_slice(), 32);
    if toks.len() < 4 {
        return None;
    }
    let x = match parse_fixed(&toks[1]) {
        Some(v) => v,
        None => {
            return None;
        },
    };
    let y = match parse_fixed(&toks[2]) {
        Some(v) => v,
        None => {
            return None;
        },
    };
    let z = match parse_fixed(&toks[3]) {
        Some(v) => v,
        None => {
            return None;
        },
    };
    Some(Vec3D { x, y, z })
}

/// A face record over the vertex list, or `None` exactly when the
/// grammar says so.
fn parse_face(line: &Vec<u8>, verts: &Vec<Vec3D>) -> (r: Option<Triangle>)
    ensures
        match r {
            Some(t) => parse_face_s(line@, vec_views(verts@)) == Some(t@),
            None => parse_face_s(line@, vec_views(verts@)) == None::<TriS>,
        },
{
    let tl = trim_bytes(line);
    let toks = split_bytes(tl.as_slice(), 32);
    if toks.len() != 4 {
        return None;
    }
    let c1: usize = find_byte(&toks[1], 47, 0);
    let f1 = copy_range(&toks[1], 0, c1);
    let a = match parse_index(&f1, verts.len()) {
        Some(i) => i,
        None => {
            return None;
        },
    };
    let c2: usize = find_byte(&toks[2], 47, 0);
    let f2 = copy_range(&toks[2], 0, c2);
    let b = match parse_index(&f2, verts.len()) {
        Some(i) => i,
        None => {
            return None;
        },
    };
    let c3: usize = find_byte(&toks[3], 47, 0);
    let f3 = copy_range(&toks[3], 0, c3);
    let c = match parse_index(&f3, verts.len()) {
        Some(i) => i,
        None => {
            return None;
        },
    };
    Some(Triangle { p0: verts[a], p1: verts[b], p2: verts[c], color: Color { r: 0, g: 0, b: 0 } })
}

impl Mesh {
    /// Parses the text of a mesh-description file into a mesh: `v`
    /// lines append vertices, `vn` lines are parsed and discarded, `f`
    /// lines of exactly three index groups each yield one triangle,
    /// and all other lines are ignored.  Any malformed record aborts
    /// the load with `ParseError`: no partial mesh is returned.
    pub fn from_obj_source(source: &[u8]) -> (r: Result<Mesh, RendererError>)
        ensures
            match r {
                Ok(m) => parse_mesh_s(source@) == Some(tri_views(m.tris@)),
                Err(e) => parse_mesh_s(source@) == None::<Seq<TriS>>
                    && e == RendererError::ParseError,
            },
    {
        let lines = split_bytes(source, 10);
        let ghost sl = views_of(lines@);
        let mut verts: Vec<Vec3D> = Vec::new();
        let mut tris: Vec<Triangle> = Vec::new();
        proof {
            assert(vec_views(verts@) =~= Seq::<Vec3S>::empty());
            assert(tri_views(tris@) =~= Seq::<TriS>::empty());
            assert(Seq::<Vec3S>::empty() =~= seq![]);
            assert(Seq::<TriS>::empty() =~= seq![]);
        }
        let mut i: usize = 0;
        while i < lines.len()
            invariant
                0 <= i <= lines@.len(),
                sl == views_of(lines@),
                sl.len() == lines@.len(),
                parse_mesh_s(source@) == parse_mesh_from(sl, i as int, vec_views(verts@), tri_views(tris@)),
            decreases lines@.len() - i,
        {
            let line = &lines[i];
            proof {
                assert(sl[i as int] == lines@[i as int]@);
            }
            if line.len() >= 2 && line[0] == 118 && line[1] == 32 {
                match parse_vertex(line) {
                    Some(v) => {
                        let ghost oldverts = verts@;
                        verts.push(v);
                        proof {
                            assert(vec_views(verts@) =~= vec_views(oldverts).push(v@));
                        }
                    },
                    None => {
                        return Err(RendererError::ParseError);
                    },
                }
            } else if line.len() >= 2 && line[0] == 118 && line[1] == 110 {
                match parse_vertex(line) {
                    Some(_) => {},
                    None => {
                        return Err(RendererError::ParseError);
                    },
                }
            } else if line.len() >= 1 && line[0] == 102 {
                match parse_face(line, &verts) {
                    Some(t) => {
                        let ghost oldtris = tris@;
                        tris.push(t);
                        proof {
                            assert(tri_views(tris@) =~= tri_views(oldtris).push(t@));
                        }
                    },
                    None => {
                        return Err(RendererError::ParseError);
                    },
                }
            }
            i = i + 1;
        }
        Ok(Mesh { tris })
    }
}

} // verus!

