//! Names of the application's files and the library's model of file-system paths.
//!
//! A path is held as its display text.  Joining follows `PathBuf::push` for the
//! inputs the application passes: a relative child is appended after the
//! platform separator `sep` unless the base is empty or already ends in a
//! separator, and a child that starts with a separator replaces the base.  Paths are
//! compared as `Path` compares them: by their components, so that repeated or trailing
//! separators and `.` components make no difference.
use crate::text::{lemma_text_le_total, lemma_text_le_trans, text_le, views};
use vstd::prelude::*;

verus! {

pub const APP_NAME: &'static str = "CodexRollbackBridge";

pub const CONFIG_DIR_RELATIVE: &'static str = "assets/config";

pub const SETTINGS_DEFAULT_FILE: &'static str = "settings.default.json";

pub const SETTINGS_OVERRIDE_FILE: &'static str = "settings.override.json";

pub const JSON_EXTENSION: &'static str = ".json";

pub const REQUIRED_FONT_RELATIVE_PATH: &'static str = "assets/fonts/NotoSansJP-Regular.ttf";

/// Byte limit for each rendering (text and JSON) of the detailed material.
pub const DETAILED_OUTPUT_LIMIT_BYTES: usize = 204800;

/// Whether `c` separates path components on a platform whose main separator is `sep`.
pub open spec fn is_separator(c: char, sep: char) -> bool {
    c == '/' || c == sep
}

/// `base` joined with `child` on a platform whose main separator is `sep`.
pub open spec fn join_spec(base: Seq<char>, child: Seq<char>, sep: char) -> Seq<char> {
    if child.len() > 0 && is_separator(child[0], sep) {
        child
    } else if base.len() == 0 {
        child
    } else if is_separator(base.last(), sep) {
        base + child
    } else {
        base.push(sep) + child
    }
}

/// The number of leading characters of `path` up to and including its last separator
/// (0 when it has none).
pub open spec fn parent_prefix_len(path: Seq<char>, sep: char) -> nat
    decreases path.len(),
{
    if path.len() == 0 {
        0
    } else if is_separator(path.last(), sep) {
        path.len()
    } else {
        parent_prefix_len(path.drop_last(), sep)
    }
}

/// `path` with its last component replaced by `name` (`PathBuf::set_file_name` on a
/// path that ends in a file name).
pub open spec fn with_file_name_spec(path: Seq<char>, name: Seq<char>, sep: char) -> Seq<char> {
    path.take(parent_prefix_len(path, sep) as int) + name
}

proof fn lemma_parent_prefix_len_bound(path: Seq<char>, sep: char)
    ensures
        parent_prefix_len(path, sep) <= path.len(),
    decreases path.len(),
{
    if path.len() > 0 {
        lemma_parent_prefix_len_bound(path.drop_last(), sep);
    }
}

/// `base` joined with `child`.
pub fn join(base: &str, child: &str, sep: char) -> (res: String)
    ensures
        res@ == join_spec(base@, child@, sep),
{
    let child_chars = crate::text::chars_of(child);
    if child_chars.len() > 0 && (child_chars[0] == '/' || child_chars[0] == sep) {
        return crate::text::owned(child);
    }
    let base_chars = crate::text::chars_of(base);
    if base_chars.len() == 0 {
        return crate::text::owned(child);
    }
    let last = base_chars[base_chars.len() - 1];
    let mut out = crate::text::owned(base);
    if !(last == '/' || last == sep) {
        crate::text::push_char(&mut out, sep);
    }
    out.append(child);
    out
}

/// `path` with its last component replaced by `name`.
pub fn with_file_name(path: &str, name: &str, sep: char) -> (res: String)
    ensures
        res@ == with_file_name_spec(path@, name@, sep),
{
    let chars = crate::text::chars_of(path);
    let mut k: usize = chars.len();
    assert(path@.take(k as int) == path@);
    while k > 0 && !(chars[k - 1] == '/' || chars[k - 1] == sep)
        invariant
            k <= chars@.len(),
            chars@ == path@,
            parent_prefix_len(path@, sep) == parent_prefix_len(path@.take(k as int), sep),
        decreases k,
    {
        assert(path@.take(k as int).drop_last() == path@.take(k - 1));
        k = k - 1;
    }
    assert(parent_prefix_len(path@.take(k as int), sep) == k);
    let mut out = crate::text::collect_range(&chars, 0, k);
    assert(path@.subrange(0, k as int) == path@.take(k as int));
    out.append(name);
    out
}

/// The directory holding the application's assets: the executable's directory
/// `exe_dir` when the caller found an `assets` directory in it
/// (`exe_dir_has_assets`), else the project root.
pub fn resolve_assets_base(project_root: &str, exe_dir: Option<String>, exe_dir_has_assets: bool) -> (res: String)
    ensures
        res@ == match exe_dir {
            Some(d) => if exe_dir_has_assets {
                d@
            } else {
                project_root@
            },
            None => project_root@,
        },
{
    match exe_dir {
        Some(d) => if exe_dir_has_assets {
            d
        } else {
            crate::text::owned(project_root)
        },
        None => crate::text::owned(project_root),
    }
}

/// Scans `path` left to right: the pieces finished by a separator so far and the
/// pending piece.
pub open spec fn path_scan(path: Seq<char>, sep: char) -> (Seq<Seq<char>>, Seq<char>)
    decreases path.len(),
{
    if path.len() == 0 {
        (Seq::empty(), Seq::empty())
    } else {
        let prev = path_scan(path.drop_last(), sep);
        if is_separator(path.last(), sep) {
            (prev.0.push(prev.1), Seq::empty())
        } else {
            (prev.0, prev.1.push(path.last()))
        }
    }
}

/// The pieces of `path` between separators, empty ones included.
pub open spec fn split_path(path: Seq<char>, sep: char) -> Seq<Seq<char>> {
    let scan = path_scan(path, sep);
    scan.0.push(scan.1)
}

/// Whether the piece at position `index` of a split path names a component: empty
/// pieces (from repeated, leading or trailing separators) do not, nor does `.` other than
/// as the very first piece.
pub open spec fn names_component(piece: Seq<char>, index: nat) -> bool {
    piece.len() > 0 && !(piece == seq!['.'] && index > 0)
}

/// The pieces that name components, in order.
pub open spec fn kept_pieces(pieces: Seq<Seq<char>>) -> Seq<Seq<char>>
    decreases pieces.len(),
{
    if pieces.len() == 0 {
        Seq::empty()
    } else if names_component(pieces.last(), (pieces.len() - 1) as nat) {
        kept_pieces(pieces.drop_last()).push(pieces.last())
    } else {
        kept_pieces(pieces.drop_last())
    }
}

/// The components of `path` as `Path::components` yields them: whether it starts at the
/// root, and its names (a drive prefix, where there is one, counts as the first name).
#[verifier::opaque]
pub open spec fn path_components(path: Seq<char>, sep: char) -> (bool, Seq<Seq<char>>) {
    (path.len() > 0 && is_separator(path[0], sep), kept_pieces(split_path(path, sep)))
}

/// The place of a name among the kinds of component: `.` before `..` before any other.
pub open spec fn name_rank(name: Seq<char>) -> int {
    if name == seq!['.'] {
        0
    } else if name == seq!['.', '.'] {
        1
    } else {
        2
    }
}

/// The order of two names as components compare.
pub open spec fn name_le(a: Seq<char>, b: Seq<char>) -> bool {
    name_rank(a) < name_rank(b) || (name_rank(a) == name_rank(b) && text_le(a, b))
}

/// Lexicographic order of name lists, a list before its extensions.
pub open spec fn names_le(a: Seq<Seq<char>>, b: Seq<Seq<char>>) -> bool
    decreases a.len(),
{
    if a.len() == 0 {
        true
    } else if b.len() == 0 {
        false
    } else if a[0] != b[0] {
        name_le(a[0], b[0])
    } else {
        names_le(a.drop_first(), b.drop_first())
    }
}

/// The order of two paths as `Path` compares them: component by component, a path that
/// starts at the root before one that does not.
pub open spec fn path_le(a: Seq<char>, b: Seq<char>, sep: char) -> bool {
    let ca = path_components(a, sep);
    let cb = path_components(b, sep);
    if ca.0 != cb.0 {
        ca.0
    } else {
        names_le(ca.1, cb.1)
    }
}

/// Whether two paths are the same path (`Path` equality: equal components).
pub open spec fn same_path_spec(a: Seq<char>, b: Seq<char>, sep: char) -> bool {
    path_components(a, sep) == path_components(b, sep)
}

proof fn lemma_name_le_total(a: Seq<char>, b: Seq<char>)
    ensures
        name_le(a, b) || name_le(b, a),
{
    lemma_text_le_total(a, b);
}

proof fn lemma_name_le_trans(a: Seq<char>, b: Seq<char>, c: Seq<char>)
    requires
        name_le(a, b),
        name_le(b, c),
    ensures
        name_le(a, c),
{
    if name_rank(a) == name_rank(b) && name_rank(b) == name_rank(c) {
        lemma_text_le_trans(a, b, c);
    }
}

proof fn lemma_name_le_antisym(a: Seq<char>, b: Seq<char>)
    requires
        name_le(a, b),
        name_le(b, a),
    ensures
        a == b,
{
    lemma_text_le_antisym(a, b);
}

proof fn lemma_text_le_antisym(a: Seq<char>, b: Seq<char>)
    requires
        text_le(a, b),
        text_le(b, a),
    ensures
        a == b,
    decreases a.len(),
{
    if a.len() > 0 && b.len() > 0 {
        lemma_text_le_antisym(a.drop_first(), b.drop_first());
        assert(a == seq![a[0]] + a.drop_first());
        assert(b == seq![b[0]] + b.drop_first());
    }
}

proof fn lemma_names_le_total(a: Seq<Seq<char>>, b: Seq<Seq<char>>)
    ensures
        names_le(a, b) || names_le(b, a),
    decreases a.len(),
{
    if a.len() > 0 && b.len() > 0 {
        if a[0] != b[0] {
            lemma_name_le_total(a[0], b[0]);
        } else {
            lemma_names_le_total(a.drop_first(), b.drop_first());
        }
    }
}

proof fn lemma_names_le_trans(a: Seq<Seq<char>>, b: Seq<Seq<char>>, c: Seq<Seq<char>>)
    requires
        names_le(a, b),
        names_le(b, c),
    ensures
        names_le(a, c),
    decreases a.len(),
{
    if a.len() > 0 && b.len() > 0 && c.len() > 0 {
        if a[0] != b[0] && b[0] != c[0] {
            lemma_name_le_trans(a[0], b[0], c[0]);
            if a[0] == c[0] {
                lemma_name_le_antisym(a[0], b[0]);
            }
        } else if a[0] == b[0] && b[0] == c[0] {
            lemma_names_le_trans(a.drop_first(), b.drop_first(), c.drop_first());
        }
    }
}

/// Any two paths are ordered one way or the other.
pub proof fn lemma_path_le_total(a: Seq<char>, b: Seq<char>, sep: char)
    ensures
        path_le(a, b, sep) || path_le(b, a, sep),
{
    lemma_names_le_total(path_components(a, sep).1, path_components(b, sep).1);
}

/// The path order is transitive.
pub proof fn lemma_path_le_trans(a: Seq<char>, b: Seq<char>, c: Seq<char>, sep: char)
    requires
        path_le(a, b, sep),
        path_le(b, c, sep),
    ensures
        path_le(a, c, sep),
{
    let (ca, cb, cc) = (path_components(a, sep), path_components(b, sep), path_components(c, sep));
    if ca.0 == cb.0 && cb.0 == cc.0 {
        lemma_names_le_trans(ca.1, cb.1, cc.1);
    }
}

fn keeps_piece(cur: &Vec<char>, index: usize) -> (res: bool)
    ensures
        res == names_component(cur@, index as nat),
{
    if cur.len() == 0 {
        return false;
    }
    if cur.len() == 1 && cur[0] == '.' {
        assert(cur@ == seq!['.']);
        return index == 0;
    }
    assert(cur@ != seq!['.']) by {
        if cur@ == seq!['.'] {
            assert(cur@.len() == 1 && cur@[0] == '.');
        }
    }
    true
}

/// The components of `path`: whether it starts at the root, and its names in order.
pub fn components(path: &str, sep: char) -> (res: (bool, Vec<String>))
    ensures
        res.0 == path_components(path@, sep).0,
        views(res.1@) == path_components(path@, sep).1,
{
    reveal(path_components);
    let chars = crate::text::chars_of(path);
    let n = chars.len();
    let mut kept: Vec<String> = Vec::new();
    let mut cur: Vec<char> = Vec::new();
    let mut count: usize = 0;
    let mut i: usize = 0;
    assert(path@.take(0) == Seq::<char>::empty());
    assert(views(kept@) == Seq::<Seq<char>>::empty());
    while i < n
        invariant
            i <= n == path@.len(),
            chars@ == path@,
            count <= i,
            views(kept@) == kept_pieces(path_scan(path@.take(i as int), sep).0),
            cur@ == path_scan(path@.take(i as int), sep).1,
            count == path_scan(path@.take(i as int), sep).0.len(),
        decreases n - i,
    {
        assert(path@.take(i + 1).drop_last() == path@.take(i as int));
        assert(path@.take(i + 1).last() == path@[i as int]);
        let c = chars[i];
        if c == '/' || c == sep {
            let ghost finished = path_scan(path@.take(i as int), sep).0.push(cur@);
            assert(finished.drop_last() == path_scan(path@.take(i as int), sep).0);
            if keeps_piece(&cur, count) {
                let piece = crate::text::string_from_chars(cur.as_slice());
                let ghost before = views(kept@);
                kept.push(piece);
                assert(views(kept@) == before.push(piece@));
            }
            cur = Vec::new();
            count = count + 1;
        } else {
            cur.push(c);
        }
        i = i + 1;
    }
    assert(path@.take(n as int) == path@);
    let ghost pieces = split_path(path@, sep);
    assert(pieces.drop_last() == path_scan(path@, sep).0);
    if keeps_piece(&cur, count) {
        let piece = crate::text::string_from_chars(cur.as_slice());
        let ghost before = views(kept@);
        kept.push(piece);
        assert(views(kept@) == before.push(piece@));
    }
    let rooted = n > 0 && (chars[0] == '/' || chars[0] == sep);
    (rooted, kept)
}

/// Whether `a` and `b` are the same path (equal components).
pub fn same_path(a: &str, b: &str, sep: char) -> (res: bool)
    ensures
        res == same_path_spec(a@, b@, sep),
{
    let pa = components(a, sep);
    let pb = components(b, sep);
    let ghost va = views(pa.1@);
    let ghost vb = views(pb.1@);
    assert(path_components(a@, sep) == (pa.0, va));
    assert(path_components(b@, sep) == (pb.0, vb));
    if pa.0 != pb.0 || pa.1.len() != pb.1.len() {
        assert(va.len() == pa.1@.len() && vb.len() == pb.1@.len());
        return false;
    }
    let mut i: usize = 0;
    while i < pa.1.len()
        invariant
            i <= pa.1@.len() == pb.1@.len(),
            va == views(pa.1@),
            vb == views(pb.1@),
            path_components(a@, sep) == (pa.0, va),
            path_components(b@, sep) == (pb.0, vb),
            forall|k: int| 0 <= k < i ==> va[k] == vb[k],
        decreases pa.1@.len() - i,
    {
        if pa.1[i] != pb.1[i] {
            assert(va[i as int] != vb[i as int]);
            return false;
        }
        i = i + 1;
    }
    assert(va =~= vb);
    true
}

fn name_rank_exec(name: &str) -> (res: u8)
    ensures
        res as int == name_rank(name@),
{
    let chars = crate::text::chars_of(name);
    if chars.len() == 1 && chars[0] == '.' {
        assert(name@ =~= seq!['.']);
        0
    } else if chars.len() == 2 && chars[0] == '.' && chars[1] == '.' {
        assert(name@ =~= seq!['.', '.']);
        assert(name@ != seq!['.']) by {
            if name@ == seq!['.'] {
                assert(name@.len() == 1);
            }
        }
        1
    } else {
        assert(name@ != seq!['.']) by {
            if name@ == seq!['.'] {
                assert(chars@.len() == 1 && chars@[0] == '.');
            }
        }
        assert(name@ != seq!['.', '.']) by {
            if name@ == seq!['.', '.'] {
                assert(chars@.len() == 2 && chars@[0] == '.' && chars@[1] == '.');
            }
        }
        2
    }
}

/// Whether `a` comes before or equals `b` in the order in which `Path` compares paths.
pub fn path_le_exec(a: &str, b: &str, sep: char) -> (res: bool)
    ensures
        res == path_le(a@, b@, sep),
{
    let (ra, ca) = components(a, sep);
    let (rb, cb) = components(b, sep);
    if ra != rb {
        return ra;
    }
    let ghost va = views(ca@);
    let ghost vb = views(cb@);
    let mut i: usize = 0;
    assert(va.skip(0) == va);
    assert(vb.skip(0) == vb);
    while i < ca.len() && i < cb.len() && ca[i] == cb[i]
        invariant
            i <= ca@.len(),
            i <= cb@.len(),
            va == views(ca@),
            vb == views(cb@),
            names_le(va, vb) == names_le(va.skip(i as int), vb.skip(i as int)),
        decreases ca@.len() - i,
    {
        assert(va.skip(i as int).drop_first() == va.skip(i + 1));
        assert(vb.skip(i as int).drop_first() == vb.skip(i + 1));
        i = i + 1;
    }
    if i == ca.len() {
        true
    } else if i == cb.len() {
        false
    } else {
        let x = &ca[i];
        let y = &cb[i];
        assert(va.skip(i as int)[0] == x@);
        assert(vb.skip(i as int)[0] == y@);
        let rx = name_rank_exec(x.as_str());
        let ry = name_rank_exec(y.as_str());
        rx < ry || (rx == ry && crate::text::text_le_exec(x.as_str(), y.as_str()))
    }
}

/// Whether no path before position `j` of `input` is the same path as `input[j]`.
pub open spec fn first_spelling(input: Seq<Seq<char>>, j: int, sep: char) -> bool {
    forall|i: int| 0 <= i < j ==> !same_path_spec(#[trigger] input[i], input[j], sep)
}

/// Whether `x` occurs in `input` where its path first occurs.
#[verifier::opaque]
pub open spec fn spelled_first(input: Seq<Seq<char>>, x: Seq<char>, sep: char) -> bool {
    exists|j: int| 0 <= j < input.len() && input[j] == x && first_spelling(input, j, sep)
}

/// Whether the path `x` occurs in `out`.
#[verifier::opaque]
pub open spec fn path_listed(out: Seq<Seq<char>>, x: Seq<char>, sep: char) -> bool {
    exists|k: int| 0 <= k < out.len() && same_path_spec(x, out[k], sep)
}

/// Whether `out` lists the paths of `input` once each, in the order in which `Path`
/// compares them, each spelled as it first occurs in `input` (what sorting followed by
/// removing repeated paths gives).
pub open spec fn sorted_unique_paths(out: Seq<Seq<char>>, input: Seq<Seq<char>>, sep: char) -> bool {
    &&& forall|a: int, b: int|
        0 <= a < b < out.len() ==> path_le(#[trigger] out[a], #[trigger] out[b], sep)
            && !same_path_spec(out[a], out[b], sep)
    &&& forall|k: int| 0 <= k < out.len() ==> spelled_first(input, #[trigger] out[k], sep)
    &&& forall|j: int| 0 <= j < input.len() ==> path_listed(out, #[trigger] input[j], sep)
}

proof fn lemma_spelled_first_extends(pre: Seq<Seq<char>>, x: Seq<char>, y: Seq<char>, sep: char)
    requires
        spelled_first(pre, y, sep),
    ensures
        spelled_first(pre.push(x), y, sep),
{
    reveal(spelled_first);
    let post = pre.push(x);
    let j = choose|j: int| 0 <= j < pre.len() && pre[j] == y && first_spelling(pre, j, sep);
    assert(post[j] == pre[j]);
    assert forall|m: int| 0 <= m < j implies !same_path_spec(#[trigger] post[m], post[j], sep) by {
        assert(post[m] == pre[m]);
    }
}

proof fn lemma_repeat_keeps_list(before: Seq<Seq<char>>, pre: Seq<Seq<char>>, x: Seq<char>, k0: int, sep: char)
    requires
        sorted_unique_paths(before, pre, sep),
        0 <= k0 < before.len(),
        same_path_spec(x, before[k0], sep),
    ensures
        sorted_unique_paths(before, pre.push(x), sep),
{
    let post = pre.push(x);
    assert forall|k: int| 0 <= k < before.len() implies spelled_first(post, #[trigger] before[k], sep) by {
        lemma_spelled_first_extends(pre, x, before[k], sep);
    }
    assert forall|j: int| 0 <= j < post.len() implies path_listed(before, #[trigger] post[j], sep) by {
        reveal(path_listed);
        if j < pre.len() {
            assert(post[j] == pre[j]);
            assert(path_listed(before, pre[j], sep));
        } else {
            assert(post[j] == x);
        }
    }
}

proof fn lemma_insert_keeps_order(before: Seq<Seq<char>>, x: Seq<char>, p: int, sep: char)
    requires
        0 <= p <= before.len(),
        forall|a: int, b: int|
            0 <= a < b < before.len() ==> path_le(#[trigger] before[a], #[trigger] before[b], sep)
                && !same_path_spec(before[a], before[b], sep),
        forall|k: int| 0 <= k < before.len() ==> !same_path_spec(x, #[trigger] before[k], sep),
        forall|k: int| 0 <= k < p ==> path_le(#[trigger] before[k], x, sep),
        forall|k: int| p <= k < before.len() ==> path_le(x, #[trigger] before[k], sep),
    ensures
        ({
            let after = before.insert(p, x);
            forall|a: int, b: int|
                0 <= a < b < after.len() ==> path_le(#[trigger] after[a], #[trigger] after[b], sep)
                    && !same_path_spec(after[a], after[b], sep)
        }),
{
    let after = before.insert(p, x);
    assert forall|a: int, b: int| 0 <= a < b < after.len() implies path_le(
        #[trigger] after[a],
        #[trigger] after[b],
        sep,
    ) && !same_path_spec(after[a], after[b], sep) by {
        if b < p {
            assert(after[a] == before[a] && after[b] == before[b]);
        } else if b == p {
            assert(after[a] == before[a]);
        } else if a == p {
            assert(after[b] == before[b - 1]);
        } else if a < p {
            assert(after[a] == before[a] && after[b] == before[b - 1]);
            lemma_path_le_trans(before[a], x, before[b - 1], sep);
        } else {
            assert(after[a] == before[a - 1] && after[b] == before[b - 1]);
        }
    }
}

proof fn lemma_insert_keeps_list(before: Seq<Seq<char>>, pre: Seq<Seq<char>>, x: Seq<char>, p: int, sep: char)
    requires
        sorted_unique_paths(before, pre, sep),
        0 <= p <= before.len(),
        forall|k: int| 0 <= k < before.len() ==> !same_path_spec(x, #[trigger] before[k], sep),
        forall|k: int| 0 <= k < p ==> path_le(#[trigger] before[k], x, sep),
        forall|k: int| p <= k < before.len() ==> path_le(x, #[trigger] before[k], sep),
    ensures
        sorted_unique_paths(before.insert(p, x), pre.push(x), sep),
{
    let after = before.insert(p, x);
    let post = pre.push(x);
    let i = pre.len() as int;
    lemma_insert_keeps_order(before, x, p, sep);
    assert(first_spelling(post, i, sep)) by {
        assert forall|m: int| 0 <= m < i implies !same_path_spec(#[trigger] post[m], post[i], sep) by {
            assert(post[m] == pre[m]);
            assert(path_listed(before, pre[m], sep));
            reveal(path_listed);
            let k = choose|k: int| 0 <= k < before.len() && same_path_spec(pre[m], before[k], sep);
            assert(!same_path_spec(x, before[k], sep));
        }
    }
    assert forall|k: int| 0 <= k < after.len() implies spelled_first(post, #[trigger] after[k], sep) by {
        if k == p {
            reveal(spelled_first);
            assert(post[i] == after[k]);
        } else {
            let kk = if k < p { k } else { k - 1 };
            assert(after[k] == before[kk]);
            lemma_spelled_first_extends(pre, x, before[kk], sep);
        }
    }
    assert forall|j: int| 0 <= j < post.len() implies path_listed(after, #[trigger] post[j], sep) by {
        reveal(path_listed);
        if j < pre.len() {
            assert(post[j] == pre[j]);
            assert(path_listed(before, pre[j], sep));
            let k = choose|k: int| 0 <= k < before.len() && same_path_spec(pre[j], before[k], sep);
            if k < p {
                assert(after[k] == before[k]);
            } else {
                assert(after[k + 1] == before[k]);
            }
        } else {
            assert(post[j] == x);
            assert(after[p] == x);
        }
    }
}

/// The paths of `input` in path order, each path once, spelled as it first occurs.
pub fn sort_unique_paths(input: &Vec<String>, sep: char) -> (res: Vec<String>)
    ensures
        sorted_unique_paths(views(res@), views(input@), sep),
{
    let ghost vin = views(input@);
    let mut out: Vec<String> = Vec::new();
    let mut i: usize = 0;
    assert(views(out@) == Seq::<Seq<char>>::empty());
    while i < input.len()
        invariant
            i <= input@.len(),
            vin == views(input@),
            sorted_unique_paths(views(out@), vin.take(i as int), sep),
        decreases input@.len() - i,
    {
        let x = &input[i];
        assert(vin[i as int] == x@);
        let ghost before = views(out@);
        let ghost pre = vin.take(i as int);
        assert(vin.take(i + 1) == pre.push(x@));
        let mut dup = false;
        let mut q: usize = 0;
        let ghost mut witness: int = 0;
        while q < out.len()
            invariant
                q <= out@.len(),
                before == views(out@),
                dup ==> 0 <= witness < before.len() && same_path_spec(x@, before[witness], sep),
                !dup ==> forall|k: int| 0 <= k < q ==> !same_path_spec(x@, #[trigger] before[k], sep),
            decreases out@.len() - q,
        {
            assert(before[q as int] == out@[q as int]@);
            if crate::paths::same_path(x.as_str(), out[q].as_str(), sep) {
                dup = true;
                proof {
                    witness = q as int;
                }
            }
            q = q + 1;
        }
        if dup {
            proof {
                lemma_repeat_keeps_list(before, pre, x@, witness, sep);
            }
        } else {
            let mut p: usize = 0;
            while p < out.len() && crate::paths::path_le_exec(out[p].as_str(), x.as_str(), sep)
                invariant
                    p <= out@.len(),
                    before == views(out@),
                    forall|k: int| 0 <= k < p ==> path_le(#[trigger] before[k], x@, sep),
                decreases out@.len() - p,
            {
                assert(before[p as int] == out@[p as int]@);
                p = p + 1;
            }
            proof {
                if p < before.len() {
                    assert(before[p as int] == out@[p as int]@);
                    lemma_path_le_total(before[p as int], x@, sep);
                }
                assert forall|k: int| p <= k < before.len() implies path_le(x@, #[trigger] before[k], sep) by {
                    lemma_path_le_total(before[p as int], x@, sep);
                    if k > p {
                        lemma_path_le_trans(x@, before[p as int], before[k], sep);
                    }
                }
                lemma_insert_keeps_list(before, pre, x@, p as int, sep);
            }
            out.insert(p, x.clone());
            assert(views(out@) == before.insert(p as int, x@));
        }
        i = i + 1;
    }
    assert(vin.take(input@.len() as int) == vin);
    out
}

} // verus!
