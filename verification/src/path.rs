//! Paths as text, with the rules of `std::path` for POSIX systems and for
//! Windows: separators, prefixes (`C:`, `\\server\share`, `\\.\device` and
//! the verbatim `\\?\` forms), roots, absolute paths, `join`, components,
//! `strip_prefix`, `parent` and the order of paths.

use vstd::prelude::*;
use crate::text::{chars_of, slice_chars, string_of};

verus! {

broadcast use vstd::string::group_string_axioms;

/// Which platform's path rules apply.
#[derive(Clone, Copy, Debug, PartialEq, Eq, Structural)]
pub enum PathStyle {
    /// `/` separates components; a path is absolute when it starts with `/`.
    Posix,
    /// `/` and `\` separate components (only `\` in a verbatim path); a
    /// path is absolute when it has a prefix (`C:`, `\\server\share`) and a
    /// root.
    Windows,
}

/// Whether `c` separates components.
pub open spec fn is_sep(style: PathStyle, c: char) -> bool {
    c == '/' || (style == PathStyle::Windows && c == '\\')
}

/// The separator that `join` inserts.
pub open spec fn main_sep(style: PathStyle) -> char {
    if style == PathStyle::Windows {
        '\\'
    } else {
        '/'
    }
}

/// Whether `c` separates components in a path that is verbatim (`\\?\`,
/// where only `\` separates) or not.
pub open spec fn is_path_sep(style: PathStyle, verbatim: bool, c: char) -> bool {
    if verbatim {
        c == '\\'
    } else {
        is_sep(style, c)
    }
}

/// The index of the first separator in `s`, or its length.
pub open spec fn sep_index(style: PathStyle, vb: bool, s: Seq<char>) -> int
    decreases s.len(),
{
    if s.len() == 0 || is_path_sep(style, vb, s[0]) {
        0
    } else {
        1 + sep_index(style, vb, s.drop_first())
    }
}

pub proof fn lemma_sep_index(style: PathStyle, vb: bool, s: Seq<char>, k: int)
    requires
        0 <= k <= s.len(),
        k == s.len() || is_path_sep(style, vb, s[k]),
        forall|j: int| 0 <= j < k ==> !is_path_sep(style, vb, s[j]),
    ensures
        sep_index(style, vb, s) == k,
    decreases k,
{
    if k > 0 {
        lemma_sep_index(style, vb, s.drop_first(), k - 1);
    }
}

pub open spec fn is_ascii_letter(c: char) -> bool {
    ('a' <= c && c <= 'z') || ('A' <= c && c <= 'Z')
}

/// A drive prefix: a letter and `:`.
pub open spec fn is_drive_prefix(p: Seq<char>) -> bool {
    p.len() >= 2 && is_ascii_letter(p[0]) && p[1] == ':'
}

/// A verbatim path: one that starts with `\\?\` written with backslashes.
pub open spec fn is_verbatim(style: PathStyle, p: Seq<char>) -> bool {
    style == PathStyle::Windows && p.len() >= 4 && p[0] == '\\' && p[1] == '\\' && p[2] == '?'
        && p[3] == '\\'
}

/// A device path: two separators, `.` and a separator (`\\.\`).
pub open spec fn is_device(style: PathStyle, p: Seq<char>) -> bool {
    style == PathStyle::Windows && p.len() >= 4 && is_sep(style, p[0]) && is_sep(style, p[1]) && p[2]
        == '.' && is_sep(style, p[3])
}

/// A verbatim share: `\\?\UNC\` and then the server and the share.
pub open spec fn is_verbatim_unc(p: Seq<char>) -> bool {
    p.len() >= 8 && p[4] == 'U' && p[5] == 'N' && p[6] == 'C' && is_sep(PathStyle::Windows, p[7])
}

/// A drive that makes a whole component: a letter, `:`, then `\\` or nothing.
pub open spec fn is_exact_drive(a: Seq<char>) -> bool {
    is_drive_prefix(a) && (a.len() == 2 || a[2] == '\\')
}

/// The length of `\\?\UNC\server\share`: the share, and the separator
/// before it, count only when the share is not empty.
pub open spec fn verbatim_unc_len(p: Seq<char>) -> int {
    let b = p.skip(8);
    let i = sep_index(PathStyle::Windows, true, b);
    if i >= b.len() {
        p.len() as int
    } else {
        let j = sep_index(PathStyle::Windows, true, b.skip(i + 1));
        if j == 0 {
            8 + i
        } else {
            9 + i + j
        }
    }
}

/// The length of `\\server\share`, or 0 when the server or the share is
/// empty.
pub open spec fn unc_len(style: PathStyle, p: Seq<char>) -> int {
    let a = p.skip(2);
    let i = sep_index(style, false, a);
    if 0 < i < a.len() && sep_index(style, false, a.skip(i + 1)) > 0 {
        3 + i + sep_index(style, false, a.skip(i + 1))
    } else {
        0
    }
}

/// The length of a Windows prefix (0 when there is none, and always on
/// POSIX), in the forms of `std::path::Prefix`: after two separators, a
/// verbatim prefix (`\\?\UNC\server\share`, `\\?\C:`, `\\?\name`, in
/// which only `\\` separates), a device (`\\.\name`), or a share
/// (`\\server\share`, both parts not empty); otherwise a drive (`C:`).
pub open spec fn prefix_len(style: PathStyle, p: Seq<char>) -> int {
    if style == PathStyle::Posix {
        0
    } else if p.len() >= 2 && is_sep(style, p[0]) && is_sep(style, p[1]) {
        if is_verbatim(style, p) {
            if is_verbatim_unc(p) {
                verbatim_unc_len(p)
            } else if is_exact_drive(p.skip(4)) {
                6
            } else {
                4 + sep_index(style, true, p.skip(4))
            }
        } else if is_device(style, p) {
            4 + sep_index(style, false, p.skip(4))
        } else {
            unc_len(style, p)
        }
    } else if is_drive_prefix(p) {
        2
    } else {
        0
    }
}

/// Whether `p` has a root: a separator right after its prefix, or a prefix
/// other than a drive.
pub open spec fn has_root(style: PathStyle, p: Seq<char>) -> bool {
    let k = prefix_len(style, p);
    (0 <= k < p.len() && is_path_sep(style, is_verbatim(style, p), p[k])) || (k > 0
        && !is_drive_prefix(p))
}

/// `Path::is_absolute`: a root on POSIX, a prefix and a root on Windows.
pub open spec fn is_absolute_spec(style: PathStyle, p: Seq<char>) -> bool {
    if style == PathStyle::Posix {
        has_root(style, p)
    } else {
        prefix_len(style, p) > 0 && has_root(style, p)
    }
}

/// `base.join(part)`: an absolute part, or one with a prefix, replaces the
/// base; a part with only a root keeps the base's prefix; any other part is
/// appended, with the main separator between them unless the base is empty,
/// ends with a separator, or is a bare drive (`C:`).
/// Onto a verbatim base, a part that is not empty is pushed component by
/// component, `.` and `..` resolved (`push_all`).
pub open spec fn join_spec(style: PathStyle, base: Seq<char>, part: Seq<char>) -> Seq<char> {
    if is_absolute_spec(style, part) || prefix_len(style, part) > 0 {
        part
    } else if is_verbatim(style, base) && part.len() > 0 {
        render_pushed(style, push_all(components(style, base), components(style, part)))
    } else if has_root(style, part) {
        base.take(prefix_len(style, base)) + part
    } else if base.len() == 0 || is_sep(style, base.last()) || (is_drive_prefix(base) && base.len()
        == 2) {
        base + part
    } else {
        base.push(main_sep(style)) + part
    }
}

fn is_separator(style: PathStyle, vb: bool, c: char) -> (r: bool)
    ensures
        r == is_path_sep(style, vb, c),
{
    if vb {
        c == '\\'
    } else {
        c == '/' || (style == PathStyle::Windows && c == '\\')
    }
}

fn find_sep(style: PathStyle, vb: bool, v: &Vec<char>, from: usize) -> (r: usize)
    requires
        from <= v.len(),
    ensures
        from <= r <= v.len(),
        r == from + sep_index(style, vb, v@.skip(from as int)),
{
    let mut q: usize = from;
    while q < v.len() && !is_separator(style, vb, v[q])
        invariant
            from <= q <= v.len(),
            forall|j: int| from <= j < q ==> !is_path_sep(style, vb, v@[j]),
        decreases v.len() - q,
    {
        q = q + 1;
    }
    proof {
        lemma_sep_index(style, vb, v@.skip(from as int), q - from);
    }
    q
}

fn is_verbatim_exec(style: PathStyle, v: &Vec<char>) -> (r: bool)
    ensures
        r == is_verbatim(style, v@),
{
    style == PathStyle::Windows && v.len() >= 4 && v[0] == '\\' && v[1] == '\\' && v[2] == '?'
        && v[3] == '\\'
}

fn is_letter(c: char) -> (r: bool)
    ensures
        r == is_ascii_letter(c),
{
    ('a' <= c && c <= 'z') || ('A' <= c && c <= 'Z')
}

fn prefix_length(style: PathStyle, v: &Vec<char>) -> (r: usize)
    ensures
        r == prefix_len(style, v@),
        r <= v.len(),
{
    if style == PathStyle::Posix {
        return 0;
    }
    if v.len() >= 2 && is_separator(style, false, v[0]) && is_separator(style, false, v[1]) {
        if is_verbatim_exec(style, v) {
            if v.len() >= 8 && v[4] == 'U' && v[5] == 'N' && v[6] == 'C' && is_separator(
                style,
                false,
                v[7],
            ) {
                let i = find_sep(style, true, v, 8);
                assert(v@.skip(8).len() == v.len() - 8);
                if i >= v.len() {
                    return v.len();
                }
                let j = find_sep(style, true, v, i + 1);
                assert(v@.skip(8).skip(i - 8 + 1) =~= v@.skip(i + 1));
                if j == i + 1 {
                    return i;
                }
                return j;
            }
            let ghost a = v@.skip(4);
            if v.len() >= 6 && is_letter(v[4]) && v[5] == ':' && (v.len() == 6 || v[6] == '\\') {
                assert(a[0] == v@[4] && a[1] == v@[5] && a.len() == v.len() - 4);
                if v.len() > 6 {
                    assert(a[2] == v@[6]);
                }
                return 6;
            }
            proof {
                if a.len() >= 2 {
                    assert(a[0] == v@[4] && a[1] == v@[5]);
                }
                if a.len() > 2 {
                    assert(a[2] == v@[6]);
                }
            }
            return find_sep(style, true, v, 4);
        }
        if v.len() >= 4 && v[2] == '.' && is_separator(style, false, v[3]) {
            return find_sep(style, false, v, 4);
        }
        let i = find_sep(style, false, v, 2);
        assert(v@.skip(2).len() == v.len() - 2);
        if i == 2 || i >= v.len() {
            return 0;
        }
        let j = find_sep(style, false, v, i + 1);
        proof {
            assert(v@.skip(2).skip(i - 2 + 1) =~= v@.skip(i + 1));
        }
        if j == i + 1 {
            return 0;
        }
        return j;
    }
    if v.len() >= 2 && is_letter(v[0]) && v[1] == ':' {
        return 2;
    }
    0
}

fn root_after_prefix(style: PathStyle, v: &Vec<char>, k: usize) -> (r: bool)
    requires
        k == prefix_len(style, v@),
        k <= v.len(),
    ensures
        r == has_root(style, v@),
{
    let drive = v.len() >= 2 && is_letter(v[0]) && v[1] == ':';
    let vb = is_verbatim_exec(style, v);
    (k < v.len() && is_separator(style, vb, v[k])) || (k > 0 && !drive)
}

pub fn is_absolute(style: PathStyle, p: &str) -> (r: bool)
    ensures
        r == is_absolute_spec(style, p@),
{
    let v = chars_of(p);
    let k = prefix_length(style, &v);
    let root = root_after_prefix(style, &v, k);
    if style == PathStyle::Posix {
        root
    } else {
        k > 0 && root
    }
}

/// `base.join(part)` on text paths.
pub fn join(style: PathStyle, base: &str, part: &str) -> (r: String)
    ensures
        r@ == join_spec(style, base@, part@),
{
    let pv = chars_of(part);
    let pk = prefix_length(style, &pv);
    if is_absolute(style, part) || pk > 0 {
        return part.to_string();
    }
    let b = chars_of(base);
    if is_verbatim_exec(style, &b) && pv.len() > 0 {
        return join_verbatim(style, base, part);
    }
    if root_after_prefix(style, &pv, pk) {
        let bk = prefix_length(style, &b);
        let mut r = string_of(&slice_chars(&b, 0, bk));
        assert(b@.subrange(0, bk as int) =~= b@.take(bk as int));
        r.push_str(part);
        return r;
    }
    let mut r = base.to_string();
    let bare_drive = b.len() == 2 && (('a' <= b[0] && b[0] <= 'z') || ('A' <= b[0] && b[0] <= 'Z'))
        && b[1] == ':';
    if !(b.len() == 0 || is_separator(style, false, b[b.len() - 1]) || bare_drive) {
        if style == PathStyle::Windows {
            r.push('\\');
        } else {
            r.push('/');
        }
    }
    r.push_str(part);
    r
}

proof fn lemma_sep_index_bounds(style: PathStyle, vb: bool, s: Seq<char>)
    ensures
        0 <= sep_index(style, vb, s) <= s.len(),
        forall|j: int| 0 <= j < sep_index(style, vb, s) ==> !is_path_sep(style, vb, s[j]),
        sep_index(style, vb, s) < s.len() ==> is_path_sep(style, vb, s[sep_index(style, vb, s)]),
    decreases s.len(),
{
    if s.len() > 0 && !is_path_sep(style, vb, s[0]) {
        lemma_sep_index_bounds(style, vb, s.drop_first());
        assert forall|j: int| 0 <= j < sep_index(style, vb, s) implies !is_path_sep(style, vb, s[j]) by {
            if j > 0 {
                assert(s[j] == s.drop_first()[j - 1]);
            }
        }
    }
}

/// A share prefix (`\\server\share`): one that is neither a drive, nor
/// verbatim, nor a device.
pub open spec fn is_share(style: PathStyle, x: Seq<char>) -> bool {
    style == PathStyle::Windows && prefix_len(style, x) > 0 && !is_drive_prefix(x) && !is_verbatim(
        style,
        x,
    ) && !is_device(style, x)
}

proof fn lemma_prefix_bounds(style: PathStyle, x: Seq<char>)
    ensures
        0 <= prefix_len(style, x) <= x.len(),
        prefix_len(style, x) > 0 ==> prefix_len(style, x) >= 2,
        is_verbatim(style, x) || is_device(style, x) ==> prefix_len(style, x) >= 4,
        is_share(style, x) ==> prefix_len(style, x) >= 5,
        is_share(style, x) && prefix_len(style, x) < x.len() ==> is_sep(
            style,
            x[prefix_len(style, x)],
        ),
        is_share(style, x) ==> !is_sep(style, x[prefix_len(style, x) - 1]),
{
    if style == PathStyle::Windows && x.len() >= 2 && is_sep(style, x[0]) && is_sep(style, x[1]) {
        if is_verbatim(style, x) {
            if is_verbatim_unc(x) {
                let b = x.skip(8);
                lemma_sep_index_bounds(style, true, b);
                let i = sep_index(style, true, b);
                if i < b.len() {
                    lemma_sep_index_bounds(style, true, b.skip(i + 1));
                }
            } else if !is_exact_drive(x.skip(4)) {
                lemma_sep_index_bounds(style, true, x.skip(4));
            }
        } else if is_device(style, x) {
            lemma_sep_index_bounds(style, false, x.skip(4));
        } else {
            let a = x.skip(2);
            let i = sep_index(style, false, a);
            lemma_sep_index_bounds(style, false, a);
            if 0 < i < a.len() {
                let b = a.skip(i + 1);
                lemma_sep_index_bounds(style, false, b);
                let j = sep_index(style, false, b);
                if j < b.len() {
                    assert(b[j] == x[3 + i + j]);
                }
                if j > 0 {
                    assert(b[j - 1] == x[2 + i + j]);
                }
            }
        }
    }
}

/// A verbatim or device path is absolute, whatever follows its first four
/// characters.
proof fn lemma_verbatim_or_device_is_absolute(style: PathStyle, z: Seq<char>)
    requires
        is_verbatim(style, z) || is_device(style, z),
    ensures
        is_absolute_spec(style, z),
{
    lemma_prefix_bounds(style, z);
}

/// A prefix is decided by its own text and what follows it: another path
/// that begins with the same drive or share prefix, followed by a separator
/// or nothing, has the same prefix.
proof fn lemma_prefix_stable(style: PathStyle, x: Seq<char>, z: Seq<char>)
    requires
        prefix_len(style, x) > 0,
        !is_verbatim(style, x),
        !is_device(style, x),
        prefix_len(style, x) <= z.len(),
        z.take(prefix_len(style, x)) == x.take(prefix_len(style, x)),
        prefix_len(style, x) < z.len() ==> is_sep(style, z[prefix_len(style, x)]),
    ensures
        prefix_len(style, z) == prefix_len(style, x),
{
    let k = prefix_len(style, x);
    lemma_prefix_bounds(style, x);
    assert(z[0] == z.take(k)[0] && z[1] == z.take(k)[1]);
    assert(x[0] == x.take(k)[0] && x[1] == x.take(k)[1]);
    if !is_drive_prefix(x) {
        assert(is_share(style, x));
        assert(z[2] == z.take(k)[2] && z[3] == z.take(k)[3]);
        assert(x[2] == x.take(k)[2] && x[3] == x.take(k)[3]);
        assert(!is_verbatim(style, z) && !is_device(style, z));
        let a = x.skip(2);
        let i = sep_index(style, false, a);
        lemma_sep_index_bounds(style, false, a);
        let b = a.skip(i + 1);
        let j = sep_index(style, false, b);
        lemma_sep_index_bounds(style, false, b);
        assert(k == 3 + i + j);
        let za = z.skip(2);
        assert forall|q: int| 0 <= q < i implies !is_sep(style, za[q]) by {
            assert(za[q] == z.take(k)[q + 2]);
            assert(a[q] == x.take(k)[q + 2]);
        }
        assert(za[i] == z.take(k)[i + 2]);
        assert(a[i] == x.take(k)[i + 2]);
        lemma_sep_index(style, false, za, i);
        let zb = za.skip(i + 1);
        assert forall|q: int| 0 <= q < j implies !is_sep(style, zb[q]) by {
            assert(zb[q] == z.take(k)[q + 3 + i]);
            assert(b[q] == x.take(k)[q + 3 + i]);
        }
        if j < zb.len() {
            assert(zb[j] == z[k]);
        }
        lemma_sep_index(style, false, zb, j);
    }
}

/// Joining anything without a prefix of its own onto an absolute path gives
/// an absolute path.
pub proof fn lemma_join_keeps_absolute(style: PathStyle, base: Seq<char>, part: Seq<char>)
    requires
        is_absolute_spec(style, base),
        prefix_len(style, part) == 0 || is_absolute_spec(style, part),
    ensures
        is_absolute_spec(style, join_spec(style, base, part)),
{
    let r = join_spec(style, base, part);
    if is_absolute_spec(style, part) {
    } else if style == PathStyle::Posix {
        assert(r[0] == base[0]);
    } else if is_verbatim(style, base) && part.len() > 0 {
        let k = prefix_len(style, base);
        lemma_prefix_bounds(style, base);
        let bc = components(style, base);
        assert(bc[0] == Comp::Prefix(base.take(k)));
        lemma_push_all_keeps_first(bc, components(style, part));
        let cs = push_all(bc, components(style, part));
        lemma_render_pushed_starts(style, cs);
        assert(base.take(k).is_prefix_of(r));
        assert(r[0] == base.take(k)[0] && r[1] == base.take(k)[1] && r[2] == base.take(k)[2] && r[3]
            == base.take(k)[3]);
        lemma_verbatim_or_device_is_absolute(style, r);
    } else if is_verbatim(style, base) || is_device(style, base) {
        lemma_prefix_bounds(style, base);
        assert(r[0] == base[0] && r[1] == base[1] && r[2] == base[2] && r[3] == base[3]);
        lemma_verbatim_or_device_is_absolute(style, r);
    } else {
        let k = prefix_len(style, base);
        lemma_prefix_bounds(style, base);
        if is_drive_prefix(base) {
            assert(k < base.len() && is_sep(style, base[k]));
        }
        if has_root(style, part) {
            assert(r == base.take(k) + part);
            assert(r.take(k) =~= base.take(k));
            if k < r.len() {
                assert(r[k] == part[0]);
            }
        } else {
            assert(r.take(k) =~= base.take(k));
            if k < r.len() {
                if k < base.len() {
                    assert(r[k] == base[k]);
                } else {
                    assert(r[k] == main_sep(style));
                }
            }
        }
        lemma_prefix_stable(style, base, r);
        assert(r[0] == base[0] && r[1] == base[1]);
        if is_drive_prefix(base) {
            assert(r[k] == base[k] || r[k] == part[0]);
        }
    }
}

/// A component of a path.
pub enum Comp {
    /// A Windows prefix, as written.
    Prefix(Seq<char>),
    /// The root.
    Root,
    /// A leading `.`.
    Cur,
    /// A name (`..` included).
    Normal(Seq<char>),
}

/// The text of `s` split at every separator (as `str::split` would).
pub open spec fn pieces(style: PathStyle, vb: bool, s: Seq<char>) -> Seq<Seq<char>>
    decreases s.len(),
{
    if s.len() == 0 {
        seq![Seq::empty()]
    } else {
        let p = pieces(style, vb, s.drop_last());
        if is_path_sep(style, vb, s.last()) {
            p.push(Seq::empty())
        } else {
            p.update(p.len() - 1, p.last().push(s.last()))
        }
    }
}

pub proof fn lemma_pieces_nonempty(style: PathStyle, vb: bool, s: Seq<char>)
    ensures
        pieces(style, vb, s).len() >= 1,
    decreases s.len(),
{
    if s.len() > 0 {
        lemma_pieces_nonempty(style, vb, s.drop_last());
    }
}

/// The components that pieces make after the start of a path: empty pieces
/// make none, `.` makes none but in a verbatim path, and any other piece is
/// a name.
pub open spec fn body(ps: Seq<Seq<char>>, vb: bool) -> Seq<Comp>
    decreases ps.len(),
{
    if ps.len() == 0 {
        Seq::empty()
    } else {
        let r = body(ps.drop_last(), vb);
        if ps.last().len() == 0 {
            r
        } else if ps.last() == seq!['.'] {
            if vb {
                r.push(Comp::Cur)
            } else {
                r
            }
        } else {
            r.push(Comp::Normal(ps.last()))
        }
    }
}

/// Whether `p` has a root component: a separator right after its prefix, or
/// a prefix other than a drive that is not verbatim.
pub open spec fn has_root_comp(style: PathStyle, p: Seq<char>) -> bool {
    let k = prefix_len(style, p);
    (0 <= k < p.len() && is_path_sep(style, is_verbatim(style, p), p[k])) || (k > 0
        && !is_drive_prefix(p) && !is_verbatim(style, p))
}

/// `Path::components`: the prefix, the root, a leading `.` when there is no
/// root, then the names; repeated separators and `.` inside the path are
/// dropped, except that a verbatim path keeps its `.` components.
pub open spec fn components(style: PathStyle, p: Seq<char>) -> Seq<Comp> {
    let k = prefix_len(style, p);
    let vb = is_verbatim(style, p);
    let ps = pieces(style, vb, p.skip(k));
    let root = has_root(style, p);
    (if k > 0 {
        seq![Comp::Prefix(p.take(k))]
    } else {
        Seq::empty()
    }) + (if has_root_comp(style, p) {
        seq![Comp::Root]
    } else {
        Seq::empty()
    }) + (if !root && ps[0] == seq!['.'] {
        seq![Comp::Cur]
    } else {
        Seq::empty()
    }) + body(ps, vb)
}

pub open spec fn comp_text(style: PathStyle, c: Comp) -> Seq<char> {
    match c {
        Comp::Prefix(t) => t,
        Comp::Root => seq![main_sep(style)],
        Comp::Cur => seq!['.'],
        Comp::Normal(t) => t,
    }
}

pub open spec fn is_name(c: Comp) -> bool {
    c is Cur || c is Normal
}

/// What `PathBuf::push` does with one component of the part when the base
/// is verbatim: a root keeps only the prefix before it, `.` is dropped, `..`
/// drops the last name (and otherwise nothing), and any other component is
/// added.
pub open spec fn push_norm(buf: Seq<Comp>, c: Comp) -> Seq<Comp> {
    match c {
        Comp::Root => (if buf.len() > 0 {
            buf.take(1)
        } else {
            buf
        }).push(Comp::Root),
        Comp::Cur => buf,
        Comp::Normal(t) => if t == seq!['.', '.'] {
            if buf.len() > 0 && buf.last() is Normal && buf.last()->Normal_0 != seq!['.', '.'] {
                buf.drop_last()
            } else {
                buf
            }
        } else {
            buf.push(c)
        },
        Comp::Prefix(_) => buf.push(c),
    }
}

/// The components of a verbatim base after those of the part were pushed.
pub open spec fn push_all(buf: Seq<Comp>, cs: Seq<Comp>) -> Seq<Comp>
    decreases cs.len(),
{
    if cs.len() == 0 {
        buf
    } else {
        push_norm(push_all(buf, cs.drop_last()), cs.last())
    }
}

/// Whether a separator follows component `c` when pushed components are
/// written: after anything but a root or a drive.
pub open spec fn sep_after(c: Comp) -> bool {
    match c {
        Comp::Root => false,
        Comp::Prefix(t) => !is_drive_prefix(t) && t.len() > 0,
        _ => true,
    }
}

/// The text of pushed components: each as written, with the main separator
/// after each one that `sep_after` names, unless a root comes next.
pub open spec fn render_pushed(style: PathStyle, cs: Seq<Comp>) -> Seq<char>
    decreases cs.len(),
{
    if cs.len() == 0 {
        Seq::empty()
    } else {
        let prev = cs.drop_last();
        let sep: Seq<char> = if prev.len() > 0 && sep_after(prev.last()) && cs.last() != Comp::Root {
            seq![main_sep(style)]
        } else {
            Seq::empty()
        };
        render_pushed(style, prev) + sep + comp_text(style, cs.last())
    }
}

proof fn lemma_push_all_keeps_first(buf: Seq<Comp>, cs: Seq<Comp>)
    requires
        buf.len() >= 1,
        buf[0] is Prefix,
    ensures
        push_all(buf, cs).len() >= 1,
        push_all(buf, cs)[0] == buf[0],
    decreases cs.len(),
{
    if cs.len() > 0 {
        lemma_push_all_keeps_first(buf, cs.drop_last());
    }
}

proof fn lemma_render_pushed_starts(style: PathStyle, cs: Seq<Comp>)
    requires
        cs.len() >= 1,
    ensures
        comp_text(style, cs[0]).is_prefix_of(render_pushed(style, cs)),
    decreases cs.len(),
{
    if cs.len() > 1 {
        lemma_render_pushed_starts(style, cs.drop_last());
    } else {
        assert(render_pushed(style, cs.drop_last()) =~= Seq::<char>::empty());
        assert(render_pushed(style, cs) =~= comp_text(style, cs[0]));
    }
}

/// The path made of `cs`: names separated by the main separator.
pub open spec fn render(style: PathStyle, cs: Seq<Comp>) -> Seq<char>
    decreases cs.len(),
{
    if cs.len() == 0 {
        Seq::empty()
    } else {
        let sep: Seq<char> = if cs.len() > 1 && is_name(cs[cs.len() - 2]) && is_name(cs.last()) {
            seq![main_sep(style)]
        } else {
            Seq::empty()
        };
        render(style, cs.drop_last()) + sep + comp_text(style, cs.last())
    }
}

/// The variant of `std::path::Prefix` that the text of a prefix makes, by
/// the order of the variants: verbatim name, verbatim share, verbatim drive,
/// device, share, drive.
pub open spec fn prefix_kind(x: Seq<char>) -> int {
    if is_verbatim(PathStyle::Windows, x) {
        if is_verbatim_unc(x) {
            1
        } else if is_exact_drive(x.skip(4)) {
            2
        } else {
            0
        }
    } else if is_device(PathStyle::Windows, x) {
        3
    } else if is_drive_prefix(x) {
        5
    } else {
        4
    }
}

/// The text of `b` up to its first separator.
pub open spec fn first_part(b: Seq<char>, vb: bool) -> Seq<char> {
    b.take(sep_index(PathStyle::Windows, vb, b))
}

/// The text of `b` after its first separator, if it has one.
pub open spec fn second_part(b: Seq<char>, vb: bool) -> Seq<char> {
    let i = sep_index(PathStyle::Windows, vb, b);
    if i < b.len() {
        b.skip(i + 1)
    } else {
        Seq::empty()
    }
}

/// The drive letter of a drive prefix, in upper case (0 for other prefixes).
pub open spec fn prefix_letter(x: Seq<char>) -> u32 {
    if prefix_kind(x) == 2 {
        upper(x[4])
    } else if prefix_kind(x) == 5 {
        upper(x[0])
    } else {
        0
    }
}

/// The name of a verbatim or device prefix, or the server of a share.
pub open spec fn prefix_first(x: Seq<char>) -> Seq<char> {
    let kind = prefix_kind(x);
    if kind == 0 || kind == 3 {
        x.skip(4)
    } else if kind == 1 {
        first_part(x.skip(8), true)
    } else if kind == 4 && x.len() >= 2 {
        first_part(x.skip(2), false)
    } else {
        Seq::empty()
    }
}

/// The share of a share prefix.
pub open spec fn prefix_second(x: Seq<char>) -> Seq<char> {
    let kind = prefix_kind(x);
    if kind == 1 {
        second_part(x.skip(8), true)
    } else if kind == 4 && x.len() >= 2 {
        second_part(x.skip(2), false)
    } else {
        Seq::empty()
    }
}

/// Equality of components: prefixes are equal when they are the same
/// variant with the same parts (a drive letter in either case, a share
/// whichever separators it is written with).
pub open spec fn same_component(a: Comp, b: Comp) -> bool {
    match (a, b) {
        (Comp::Prefix(x), Comp::Prefix(y)) => prefix_kind(x) == prefix_kind(y) && prefix_letter(x)
            == prefix_letter(y) && prefix_first(x) == prefix_first(y) && prefix_second(x)
            == prefix_second(y),
        _ => a == b,
    }
}

/// Whether the components `rc` begin the components `fc`.
pub open spec fn starts_with(fc: Seq<Comp>, rc: Seq<Comp>) -> bool {
    rc.len() <= fc.len() && forall|i: int| 0 <= i < rc.len() ==> same_component(fc[i], rc[i])
}

/// `file.strip_prefix(root)`: when the components of `root` begin those of
/// `file`, the path of the remaining components. It is written with one main
/// separator between names; `Path::strip_prefix` gives the same components
/// as a slice of `file`, so the texts differ where `file` repeats
/// separators, holds inner `.` components or uses the other separator.
pub open spec fn relative_to(style: PathStyle, file: Seq<char>, root: Seq<char>) -> Option<
    Seq<char>,
> {
    let fc = components(style, file);
    let rc = components(style, root);
    if starts_with(fc, rc) {
        Some(render(style, fc.skip(rc.len() as int)))
    } else {
        None
    }
}

/// `Path::parent`: the path without its last component, when that is a name,
/// written as `relative_to` writes its result.
pub open spec fn parent_spec(style: PathStyle, p: Seq<char>) -> Option<Seq<char>> {
    let cs = components(style, p);
    if cs.len() > 0 && is_name(cs.last()) {
        Some(render(style, cs.drop_last()))
    } else {
        None
    }
}

/// `<=` on texts: character by character, a prefix first.
pub open spec fn chars_le(a: Seq<char>, b: Seq<char>) -> bool
    decreases a.len(),
{
    if a.len() == 0 {
        true
    } else if b.len() == 0 {
        false
    } else if a[0] != b[0] {
        a[0] < b[0]
    } else {
        chars_le(a.drop_first(), b.drop_first())
    }
}

/// A drive letter in upper case.
pub open spec fn upper(c: char) -> u32 {
    if 'a' <= c && c <= 'z' {
        (c as u32 - 32) as u32
    } else {
        c as u32
    }
}

/// The order of prefixes: by variant, then drive letter, then the first
/// part, then the second.
pub open spec fn prefix_le(x: Seq<char>, y: Seq<char>) -> bool {
    if prefix_kind(x) != prefix_kind(y) {
        prefix_kind(x) < prefix_kind(y)
    } else if prefix_letter(x) != prefix_letter(y) {
        prefix_letter(x) < prefix_letter(y)
    } else if prefix_first(x) != prefix_first(y) {
        chars_le(prefix_first(x), prefix_first(y))
    } else {
        chars_le(prefix_second(x), prefix_second(y))
    }
}

/// The kinds of components in their order: prefix, root, `.`, `..`, name.
pub open spec fn comp_rank(c: Comp) -> int {
    match c {
        Comp::Prefix(_) => 0,
        Comp::Root => 1,
        Comp::Cur => 2,
        Comp::Normal(t) => if t == seq!['.', '.'] {
            3
        } else {
            4
        },
    }
}

/// `<=` on components.
pub open spec fn comp_le(a: Comp, b: Comp) -> bool {
    if comp_rank(a) != comp_rank(b) {
        comp_rank(a) < comp_rank(b)
    } else {
        match (a, b) {
            (Comp::Prefix(x), Comp::Prefix(y)) => prefix_le(x, y),
            (Comp::Normal(x), Comp::Normal(y)) => chars_le(x, y),
            _ => true,
        }
    }
}

/// `<=` on component sequences: the first components that differ decide,
/// and a sequence comes before those it begins.
pub open spec fn comps_le(a: Seq<Comp>, b: Seq<Comp>) -> bool
    decreases a.len(),
{
    if a.len() == 0 {
        true
    } else if b.len() == 0 {
        false
    } else if same_component(a[0], b[0]) {
        comps_le(a.drop_first(), b.drop_first())
    } else {
        comp_le(a[0], b[0])
    }
}

/// The order of `Path`: by components.
pub open spec fn path_le(style: PathStyle, a: Seq<char>, b: Seq<char>) -> bool {
    comps_le(components(style, a), components(style, b))
}

proof fn lemma_chars_le_total(a: Seq<char>, b: Seq<char>)
    ensures
        chars_le(a, b) || chars_le(b, a),
        chars_le(a, b) && chars_le(b, a) ==> a == b,
    decreases a.len(),
{
    if a.len() > 0 && b.len() > 0 && a[0] == b[0] {
        lemma_chars_le_total(a.drop_first(), b.drop_first());
        if chars_le(a, b) && chars_le(b, a) {
            assert(a == seq![a[0]] + a.drop_first());
            assert(b == seq![b[0]] + b.drop_first());
        }
    }
}

/// Any two paths are in order one way or the other.
pub proof fn lemma_comps_le_total(a: Seq<Comp>, b: Seq<Comp>)
    ensures
        comps_le(a, b) || comps_le(b, a),
    decreases a.len(),
{
    if a.len() > 0 && b.len() > 0 {
        if same_component(a[0], b[0]) {
            lemma_comps_le_total(a.drop_first(), b.drop_first());
        } else {
            match (a[0], b[0]) {
                (Comp::Prefix(x), Comp::Prefix(y)) => {
                    lemma_chars_le_total(prefix_first(x), prefix_first(y));
                    lemma_chars_le_total(prefix_second(x), prefix_second(y));
                },
                (Comp::Normal(x), Comp::Normal(y)) => {
                    lemma_chars_le_total(x, y);
                },
                _ => {},
            }
        }
    }
}

/// A component of a path.
pub enum PathComp {
    Prefix(Vec<char>),
    Root,
    Cur,
    Normal(Vec<char>),
}

impl View for PathComp {
    type V = Comp;

    open spec fn view(&self) -> Comp {
        match self {
            PathComp::Prefix(t) => Comp::Prefix(t@),
            PathComp::Root => Comp::Root,
            PathComp::Cur => Comp::Cur,
            PathComp::Normal(t) => Comp::Normal(t@),
        }
    }
}

pub open spec fn comps_view(v: Seq<PathComp>) -> Seq<Comp> {
    v.map_values(|c: PathComp| c@)
}

pub open spec fn chars_views(v: Seq<Vec<char>>) -> Seq<Seq<char>> {
    v.map_values(|c: Vec<char>| c@)
}

fn copy_chars(v: &Vec<char>) -> (r: Vec<char>)
    ensures
        r@ == v@,
{
    slice_chars(v, 0, v.len())
}

fn pieces_of(style: PathStyle, vb: bool, v: &Vec<char>, from: usize) -> (r: Vec<Vec<char>>)
    requires
        from <= v.len(),
    ensures
        chars_views(r@) == pieces(style, vb, v@.skip(from as int)),
{
    let ghost s = v@.skip(from as int);
    let mut done: Vec<Vec<char>> = Vec::new();
    let mut cur: Vec<char> = Vec::new();
    let mut i: usize = from;
    assert(s.take(0) =~= Seq::<char>::empty());
    assert(chars_views(done@).push(cur@) =~= seq![Seq::<char>::empty()]);
    while i < v.len()
        invariant
            from <= i <= v.len(),
            s == v@.skip(from as int),
            chars_views(done@).push(cur@) == pieces(style, vb, s.take(i - from)),
        decreases v.len() - i,
    {
        let c = v[i];
        let ghost before = s.take(i - from);
        assert(s.take(i - from + 1).drop_last() =~= before);
        assert(s.take(i - from + 1).last() == c);
        if is_separator(style, vb, c) {
            let finished = copy_chars(&cur);
            done.push(finished);
            cur = Vec::new();
            assert(chars_views(done@).push(cur@) =~= pieces(style, vb, before).push(Seq::empty()));
        } else {
            cur.push(c);
            assert(chars_views(done@).push(cur@) =~= pieces(style, vb, before).update(
                pieces(style, vb, before).len() - 1,
                pieces(style, vb, before).last().push(c),
            ));
        }
        i = i + 1;
    }
    assert(s.take(v.len() - from) =~= s);
    done.push(cur);
    done
}

fn is_dot(p: &Vec<char>) -> (r: bool)
    ensures
        r == (p@ == seq!['.']),
{
    let r = p.len() == 1 && p[0] == '.';
    if r {
        assert(p@ =~= seq!['.']);
    }
    r
}

fn body_of(ps: &Vec<Vec<char>>, vb: bool, out: &mut Vec<PathComp>)
    ensures
        comps_view(final(out)@) == comps_view(old(out)@) + body(chars_views(ps@), vb),
{
    let ghost start = comps_view(out@);
    let ghost pv = chars_views(ps@);
    let mut i: usize = 0;
    assert(pv.take(0) =~= Seq::<Seq<char>>::empty());
    assert(comps_view(out@) =~= start + body(pv.take(0), vb));
    while i < ps.len()
        invariant
            i <= ps.len(),
            pv == chars_views(ps@),
            comps_view(out@) == start + body(pv.take(i as int), vb),
        decreases ps.len() - i,
    {
        let ghost before = pv.take(i as int);
        assert(pv.take(i + 1).drop_last() =~= before);
        assert(pv.take(i + 1).last() == ps@[i as int]@);
        let ghost prev = comps_view(out@);
        if ps[i].len() == 0 {
        } else if is_dot(&ps[i]) {
            if vb {
                out.push(PathComp::Cur);
                assert(comps_view(out@) =~= prev.push(Comp::Cur));
            }
        } else {
            out.push(PathComp::Normal(copy_chars(&ps[i])));
            assert(comps_view(out@) =~= prev.push(Comp::Normal(ps@[i as int]@)));
        }
        assert(comps_view(out@) =~= start + body(pv.take(i + 1), vb));
        i = i + 1;
    }
    assert(pv.take(ps.len() as int) =~= pv);
}

/// The components of a path.
pub fn components_of(style: PathStyle, p: &str) -> (r: Vec<PathComp>)
    ensures
        comps_view(r@) == components(style, p@),
{
    let v = chars_of(p);
    let k = prefix_length(style, &v);
    let root = root_after_prefix(style, &v, k);
    let vb = is_verbatim_exec(style, &v);
    let drive = v.len() >= 2 && is_letter(v[0]) && v[1] == ':';
    let root_comp = (k < v.len() && is_separator(style, vb, v[k])) || (k > 0 && !drive && !vb);
    let ps = pieces_of(style, vb, &v, k);
    proof {
        lemma_pieces_nonempty(style, vb, v@.skip(k as int));
    }
    let mut out: Vec<PathComp> = Vec::new();
    let ghost a: Seq<Comp> = if k > 0 {
        seq![Comp::Prefix(v@.take(k as int))]
    } else {
        Seq::empty()
    };
    if k > 0 {
        let pre = slice_chars(&v, 0, k);
        assert(pre@ =~= v@.take(k as int));
        out.push(PathComp::Prefix(pre));
    }
    assert(comps_view(out@) =~= a);
    let ghost b: Seq<Comp> = if root_comp {
        seq![Comp::Root]
    } else {
        Seq::empty()
    };
    if root_comp {
        out.push(PathComp::Root);
    }
    assert(comps_view(out@) =~= a + b);
    let ghost c: Seq<Comp> = if !root && chars_views(ps@)[0] == seq!['.'] {
        seq![Comp::Cur]
    } else {
        Seq::empty()
    };
    assert(chars_views(ps@)[0] == ps@[0]@);
    if !root && is_dot(&ps[0]) {
        out.push(PathComp::Cur);
    }
    assert(comps_view(out@) =~= a + b + c);
    body_of(&ps, vb, &mut out);
    out
}

fn same_chars(a: &Vec<char>, b: &Vec<char>) -> (r: bool)
    ensures
        r == (a@ == b@),
{
    if a.len() != b.len() {
        return false;
    }
    let mut i: usize = 0;
    while i < a.len()
        invariant
            i <= a.len() == b.len(),
            forall|j: int| 0 <= j < i ==> a@[j] == b@[j],
        decreases a.len() - i,
    {
        if a[i] != b[i] {
            return false;
        }
        i = i + 1;
    }
    assert(a@ =~= b@);
    true
}

fn same_comp(a: &PathComp, b: &PathComp) -> (r: bool)
    ensures
        r == same_component(a@, b@),
{
    match (a, b) {
        (PathComp::Prefix(x), PathComp::Prefix(y)) => {
            let px = prefix_parts(x);
            let py = prefix_parts(y);
            px.0 == py.0 && px.1 == py.1 && same_chars(&px.2, &py.2) && same_chars(&px.3, &py.3)
        },
        (PathComp::Root, PathComp::Root) => true,
        (PathComp::Cur, PathComp::Cur) => true,
        (PathComp::Normal(x), PathComp::Normal(y)) => same_chars(x, y),
        _ => false,
    }
}

fn push_comp_text(style: PathStyle, out: &mut Vec<char>, c: &PathComp)
    ensures
        final(out)@ == old(out)@ + comp_text(style, c@),
{
    match c {
        PathComp::Prefix(t) | PathComp::Normal(t) => {
            let mut i: usize = 0;
            let ghost start = out@;
            while i < t.len()
                invariant
                    i <= t.len(),
                    out@ == start + t@.take(i as int),
                decreases t.len() - i,
            {
                out.push(t[i]);
                assert(t@.take(i + 1) =~= t@.take(i as int).push(t@[i as int]));
                i = i + 1;
            }
            assert(t@.take(t.len() as int) =~= t@);
        },
        PathComp::Root => {
            out.push(if style == PathStyle::Windows { '\\' } else { '/' });
        },
        PathComp::Cur => {
            out.push('.');
        },
    }
}

fn copy_comp(c: &PathComp) -> (r: PathComp)
    ensures
        r@ == c@,
{
    match c {
        PathComp::Prefix(t) => PathComp::Prefix(copy_chars(t)),
        PathComp::Root => PathComp::Root,
        PathComp::Cur => PathComp::Cur,
        PathComp::Normal(t) => PathComp::Normal(copy_chars(t)),
    }
}

fn push_norm_exec(buf: &mut Vec<PathComp>, c: &PathComp)
    ensures
        comps_view(final(buf)@) == push_norm(comps_view(old(buf)@), c@),
{
    let ghost before = comps_view(buf@);
    match c {
        PathComp::Root => {
            buf.truncate(1);
            proof {
                if before.len() > 0 {
                    assert(comps_view(buf@) =~= before.take(1));
                } else {
                    assert(comps_view(buf@) =~= before);
                }
            }
            buf.push(PathComp::Root);
            assert(comps_view(buf@) =~= push_norm(before, c@));
        },
        PathComp::Cur => {},
        PathComp::Normal(t) => {
            if is_dot_dot(t) {
                let n = buf.len();
                if n > 0 {
                    let drop = match &buf[n - 1] {
                        PathComp::Normal(last) => !is_dot_dot(last),
                        _ => false,
                    };
                    assert(before.last() == buf@[n - 1]@);
                    if drop {
                        buf.pop();
                        assert(comps_view(buf@) =~= before.drop_last());
                    }
                }
            } else {
                buf.push(copy_comp(c));
                assert(comps_view(buf@) =~= before.push(c@));
            }
        },
        PathComp::Prefix(_) => {
            buf.push(copy_comp(c));
            assert(comps_view(buf@) =~= before.push(c@));
        },
    }
}

fn sep_after_exec(c: &PathComp) -> (r: bool)
    ensures
        r == sep_after(c@),
{
    match c {
        PathComp::Root => false,
        PathComp::Prefix(t) => !(t.len() >= 2 && is_letter(t[0]) && t[1] == ':') && t.len() > 0,
        _ => true,
    }
}

/// `base.join(part)` for a verbatim base and a part that is not empty.
fn join_verbatim(style: PathStyle, base: &str, part: &str) -> (r: String)
    ensures
        r@ == render_pushed(style, push_all(components(style, base@), components(style, part@))),
{
    let mut buf = components_of(style, base);
    let pc = components_of(style, part);
    let ghost start = comps_view(buf@);
    let ghost pv = comps_view(pc@);
    let mut i: usize = 0;
    assert(pv.take(0) =~= Seq::<Comp>::empty());
    while i < pc.len()
        invariant
            i <= pc.len(),
            pv == comps_view(pc@),
            comps_view(buf@) == push_all(start, pv.take(i as int)),
        decreases pc.len() - i,
    {
        assert(pv.take(i + 1).drop_last() =~= pv.take(i as int));
        assert(pv.take(i + 1).last() == pc@[i as int]@);
        push_norm_exec(&mut buf, &pc[i]);
        i = i + 1;
    }
    assert(pv.take(pc.len() as int) =~= pv);
    let ghost cs = comps_view(buf@);
    let mut out: Vec<char> = Vec::new();
    let mut j: usize = 0;
    assert(cs.take(0) =~= Seq::<Comp>::empty());
    while j < buf.len()
        invariant
            j <= buf.len(),
            cs == comps_view(buf@),
            out@ == render_pushed(style, cs.take(j as int)),
        decreases buf.len() - j,
    {
        let ghost pre = cs.take(j as int);
        let ghost next = cs.take(j + 1);
        assert(next.drop_last() =~= pre);
        assert(next.last() == buf@[j as int]@);
        if j > 0 {
            assert(pre.last() == buf@[j - 1]@);
            let is_root = match &buf[j] {
                PathComp::Root => true,
                _ => false,
            };
            if sep_after_exec(&buf[j - 1]) && !is_root {
                out.push(if style == PathStyle::Windows { '\\' } else { '/' });
            }
        }
        let ghost mid = out@;
        push_comp_text(style, &mut out, &buf[j]);
        proof {
            let sep: Seq<char> = if pre.len() > 0 && sep_after(pre.last()) && next.last() != Comp::Root {
                seq![main_sep(style)]
            } else {
                Seq::empty()
            };
            assert(mid =~= render_pushed(style, pre) + sep);
        }
        j = j + 1;
    }
    assert(cs.take(buf.len() as int) =~= cs);
    string_of(&out)
}

/// The path made of `cs[from..]`.
fn render_from(style: PathStyle, cs: &Vec<PathComp>, from: usize) -> (r: String)
    requires
        from <= cs.len(),
    ensures
        r@ == render(style, comps_view(cs@).skip(from as int)),
{
    let ghost cv = comps_view(cs@).skip(from as int);
    let mut out: Vec<char> = Vec::new();
    let mut i: usize = from;
    assert(cv.take(0) =~= Seq::<Comp>::empty());
    while i < cs.len()
        invariant
            from <= i <= cs.len(),
            cv == comps_view(cs@).skip(from as int),
            out@ == render(style, cv.take(i - from)),
        decreases cs.len() - i,
    {
        let ghost pre = cv.take(i - from);
        let ghost next = cv.take(i - from + 1);
        assert(next.drop_last() =~= pre);
        assert(next.last() == cs@[i as int]@);
        let named = match &cs[i] {
            PathComp::Cur | PathComp::Normal(_) => true,
            _ => false,
        };
        if i > from {
            assert(next[next.len() - 2] == cs@[i - 1]@);
            let prev_named = match &cs[i - 1] {
                PathComp::Cur | PathComp::Normal(_) => true,
                _ => false,
            };
            if prev_named && named {
                out.push(if style == PathStyle::Windows { '\\' } else { '/' });
            }
        }
        let ghost mid = out@;
        push_comp_text(style, &mut out, &cs[i]);
        proof {
            let sep: Seq<char> = if next.len() > 1 && is_name(next[next.len() - 2]) && is_name(
                next.last(),
            ) {
                seq![main_sep(style)]
            } else {
                Seq::empty()
            };
            assert(mid =~= render(style, pre) + sep);
        }
        i = i + 1;
    }
    assert(cv.take(cs.len() - from) =~= cv);
    string_of(&out)
}

/// `file.strip_prefix(root)`.
pub fn strip_prefix(style: PathStyle, file: &str, root: &str) -> (r: Option<String>)
    ensures
        match r {
            Some(rel) => relative_to(style, file@, root@) == Some(rel@),
            None => relative_to(style, file@, root@) is None,
        },
{
    let fc = components_of(style, file);
    let rc = components_of(style, root);
    if rc.len() > fc.len() {
        return None;
    }
    let mut i: usize = 0;
    while i < rc.len()
        invariant
            i <= rc.len() <= fc.len(),
            comps_view(fc@) == components(style, file@),
            comps_view(rc@) == components(style, root@),
            forall|j: int| 0 <= j < i ==> same_component(fc@[j]@, rc@[j]@),
        decreases rc.len() - i,
    {
        if !same_comp(&fc[i], &rc[i]) {
            assert(!same_component(comps_view(fc@)[i as int], comps_view(rc@)[i as int]));
            assert(!starts_with(comps_view(fc@), comps_view(rc@)));
            return None;
        }
        i = i + 1;
    }
    assert(starts_with(comps_view(fc@), comps_view(rc@)));
    Some(render_from(style, &fc, rc.len()))
}

/// `Path::parent`.
pub fn parent(style: PathStyle, p: &str) -> (r: Option<String>)
    ensures
        match r {
            Some(d) => parent_spec(style, p@) == Some(d@),
            None => parent_spec(style, p@) is None,
        },
{
    let mut cs = components_of(style, p);
    if cs.len() == 0 {
        return None;
    }
    let named = match &cs[cs.len() - 1] {
        PathComp::Cur | PathComp::Normal(_) => true,
        _ => false,
    };
    if !named {
        return None;
    }
    let ghost full = comps_view(cs@);
    cs.pop();
    assert(comps_view(cs@) =~= full.drop_last());
    let r = render_from(style, &cs, 0);
    assert(comps_view(cs@).skip(0) =~= comps_view(cs@));
    Some(r)
}

fn chars_le_exec(a: &Vec<char>, b: &Vec<char>) -> (r: bool)
    ensures
        r == chars_le(a@, b@),
{
    let mut i: usize = 0;
    assert(a@.skip(0) =~= a@ && b@.skip(0) =~= b@);
    while i < a.len() && i < b.len() && a[i] == b[i]
        invariant
            i <= a.len(),
            i <= b.len(),
            chars_le(a@, b@) == chars_le(a@.skip(i as int), b@.skip(i as int)),
        decreases a.len() - i,
    {
        assert(a@.skip(i as int).drop_first() =~= a@.skip(i + 1));
        assert(b@.skip(i as int).drop_first() =~= b@.skip(i + 1));
        i = i + 1;
    }
    if i == a.len() {
        true
    } else if i == b.len() {
        false
    } else {
        a[i] < b[i]
    }
}

fn upper_exec(c: char) -> (r: u32)
    ensures
        r == upper(c),
{
    if 'a' <= c && c <= 'z' {
        c as u32 - 32
    } else {
        c as u32
    }
}

fn first_and_second(b: &Vec<char>, from: usize, vb: bool) -> (r: (Vec<char>, Vec<char>))
    requires
        from <= b.len(),
    ensures
        r.0@ == first_part(b@.skip(from as int), vb),
        r.1@ == second_part(b@.skip(from as int), vb),
{
    let i = find_sep(PathStyle::Windows, vb, b, from);
    let first = slice_chars(b, from, i);
    assert(first@ =~= first_part(b@.skip(from as int), vb));
    if i >= b.len() {
        return (first, Vec::new());
    }
    let second = slice_chars(b, i + 1, b.len());
    assert(second@ =~= b@.skip(from as int).skip(i - from + 1));
    (first, second)
}

/// The variant, drive letter, first and second part of a prefix.
fn prefix_parts(x: &Vec<char>) -> (r: (u8, u32, Vec<char>, Vec<char>))
    ensures
        r.0 as int == prefix_kind(x@),
        r.1 == prefix_letter(x@),
        r.2@ == prefix_first(x@),
        r.3@ == prefix_second(x@),
{
    let w = PathStyle::Windows;
    if is_verbatim_exec(w, x) {
        if x.len() >= 8 && x[4] == 'U' && x[5] == 'N' && x[6] == 'C' && is_separator(w, false, x[7]) {
            let (a, b) = first_and_second(x, 8, true);
            return (1, 0, a, b);
        }
        let ghost t = x@.skip(4);
        proof {
            if t.len() >= 2 {
                assert(t[0] == x@[4] && t[1] == x@[5]);
            }
            if t.len() > 2 {
                assert(t[2] == x@[6]);
            }
        }
        if x.len() >= 6 && is_letter(x[4]) && x[5] == ':' && (x.len() == 6 || x[6] == '\\') {
            return (2, upper_exec(x[4]), Vec::new(), Vec::new());
        }
        let name = slice_chars(x, 4, x.len());
        assert(name@ =~= x@.skip(4));
        return (0, 0, name, Vec::new());
    }
    if x.len() >= 4 && is_separator(w, false, x[0]) && is_separator(w, false, x[1]) && x[2] == '.'
        && is_separator(w, false, x[3]) {
        let name = slice_chars(x, 4, x.len());
        assert(name@ =~= x@.skip(4));
        return (3, 0, name, Vec::new());
    }
    if x.len() >= 2 && is_letter(x[0]) && x[1] == ':' {
        return (5, upper_exec(x[0]), Vec::new(), Vec::new());
    }
    if x.len() < 2 {
        return (4, 0, Vec::new(), Vec::new());
    }
    let (a, b) = first_and_second(x, 2, false);
    (4, 0, a, b)
}

fn prefix_le_exec(x: &Vec<char>, y: &Vec<char>) -> (r: bool)
    ensures
        r == prefix_le(x@, y@),
{
    let px = prefix_parts(x);
    let py = prefix_parts(y);
    if px.0 != py.0 {
        px.0 < py.0
    } else if px.1 != py.1 {
        px.1 < py.1
    } else if !same_chars(&px.2, &py.2) {
        chars_le_exec(&px.2, &py.2)
    } else {
        chars_le_exec(&px.3, &py.3)
    }
}

fn is_dot_dot(t: &Vec<char>) -> (r: bool)
    ensures
        r == (t@ == seq!['.', '.']),
{
    let r = t.len() == 2 && t[0] == '.' && t[1] == '.';
    if r {
        assert(t@ =~= seq!['.', '.']);
    }
    r
}

fn comp_rank_exec(c: &PathComp) -> (r: u8)
    ensures
        r as int == comp_rank(c@),
{
    match c {
        PathComp::Prefix(_) => 0,
        PathComp::Root => 1,
        PathComp::Cur => 2,
        PathComp::Normal(t) => if is_dot_dot(t) {
            3
        } else {
            4
        },
    }
}

fn comp_le_exec(a: &PathComp, b: &PathComp) -> (r: bool)
    ensures
        r == comp_le(a@, b@),
{
    let ra = comp_rank_exec(a);
    let rb = comp_rank_exec(b);
    if ra != rb {
        return ra < rb;
    }
    match (a, b) {
        (PathComp::Prefix(x), PathComp::Prefix(y)) => prefix_le_exec(x, y),
        (PathComp::Normal(x), PathComp::Normal(y)) => chars_le_exec(x, y),
        _ => true,
    }
}

/// `a <= b` in the order of `Path`.
pub fn path_le_exec(style: PathStyle, a: &str, b: &str) -> (r: bool)
    ensures
        r == path_le(style, a@, b@),
{
    let ca = components_of(style, a);
    let cb = components_of(style, b);
    let ghost va = comps_view(ca@);
    let ghost vb = comps_view(cb@);
    let mut i: usize = 0;
    assert(va.skip(0) =~= va && vb.skip(0) =~= vb);
    while i < ca.len() && i < cb.len() && same_comp(&ca[i], &cb[i])
        invariant
            i <= ca.len(),
            i <= cb.len(),
            va == comps_view(ca@),
            vb == comps_view(cb@),
            comps_le(va, vb) == comps_le(va.skip(i as int), vb.skip(i as int)),
        decreases ca.len() - i,
    {
        assert(va.skip(i as int)[0] == ca@[i as int]@);
        assert(vb.skip(i as int)[0] == cb@[i as int]@);
        assert(va.skip(i as int).drop_first() =~= va.skip(i + 1));
        assert(vb.skip(i as int).drop_first() =~= vb.skip(i + 1));
        i = i + 1;
    }
    if i == ca.len() {
        true
    } else if i == cb.len() {
        false
    } else {
        assert(va.skip(i as int)[0] == ca@[i as int]@);
        assert(vb.skip(i as int)[0] == cb@[i as int]@);
        comp_le_exec(&ca[i], &cb[i])
    }
}

} // verus!
