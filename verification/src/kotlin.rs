//! Rewriting of a downloaded Kotlin icon source into the file that is written
//! out: package declaration, field renaming, extension receiver and import.
use vstd::prelude::*;

use crate::text::{
    all_no_newline, avoids, lemma_join_lines_terminated, lemma_join_unfold_front,
    lemma_lines_avoid_cr, lemma_lines_cons, lemma_lines_no_newline, lemma_lines_of_joined,
    lemma_strip_cr_line, no_newline, strip_all, strip_cr, is_white_space,
    after_last_dot, chars_of, segment_start, equals_at, extend_chars, extend_range, find_chars, find_from,
    is_ascii_alnum, is_blank, join_lines, join_lines_nl, lines, split_lines, starts_with,
    starts_with_at, string_of, trim_start, trim_start_index, views,
};
use crate::word_case::{upper_camel_case, upper_camel_case_of};

verus! {

// ---------------------------------------------------------------------------
// The transform configuration and the whole pipeline
// ---------------------------------------------------------------------------

/// All inputs needed to turn a raw downloaded Kotlin source into the final
/// output file.
pub struct TransformConfig {
    pub package: String,
    /// The snake_case icon name as it appears in the downloaded source.
    pub field_name: String,
    pub upper_camel_fields: bool,
    /// Fully-qualified receiver class; the last segment is used in code and
    /// the full value is imported.
    pub extension_class: Option<String>,
}

/// The full rewriting: package, then (optionally) renaming, then (optionally)
/// the extension receiver and its import.
pub open spec fn transform_spec(
    source: Seq<char>,
    package: Seq<char>,
    field_name: Seq<char>,
    upper_camel_fields: bool,
    extension_class: Option<Seq<char>>,
) -> Seq<char> {
    let s1 = set_package_spec(source, package);
    let s2 = if upper_camel_fields {
        rename_field_upper_camel_spec(s1, field_name)
    } else {
        s1
    };
    match extension_class {
        Some(class) => add_import_spec(set_extension_class_spec(s2, after_last_dot(class)), class),
        None => s2,
    }
}

/// The class name of a configuration, by its view.
pub open spec fn class_view(c: Option<String>) -> Option<Seq<char>> {
    match c {
        Some(s) => Some(s@),
        None => None,
    }
}

/// Apply the full Kotlin source transform pipeline in order:
/// package → rename → extension → import.
pub fn transform(source: &str, cfg: &TransformConfig) -> (r: String)
    ensures
        r@ == transform_spec(
            source@,
            cfg.package@,
            cfg.field_name@,
            cfg.upper_camel_fields,
            class_view(cfg.extension_class),
        ),
{
    let mut s = set_package(source, cfg.package.as_str());
    if cfg.upper_camel_fields {
        s = rename_field_upper_camel(s.as_str(), cfg.field_name.as_str());
    }
    match &cfg.extension_class {
        Some(class) => {
            let receiver = last_segment(class.as_str());
            s = set_extension_class(s.as_str(), receiver.as_str());
            s = add_import(s.as_str(), class.as_str());
        },
        None => {},
    }
    s
}

/// The part of a dotted class name after its last `'.'` (the whole name when
/// it has none).
pub fn last_segment(class: &str) -> (r: String)
    ensures
        r@ == after_last_dot(class@),
{
    let v = chars_of(class);
    let mut i = v.len();
    while i > 0 && v[i - 1] != '.'
        invariant
            i <= v@.len(),
            segment_start(v@, i as int) == segment_start(
                v@,
                v@.len() as int,
            ),
        decreases i,
    {
        i = i - 1;
    }
    let mut out: Vec<char> = Vec::new();
    extend_range(&mut out, v.as_slice(), i, v.len());
    assert(v@.subrange(i as int, v@.len() as int) == v@.skip(i as int));
    string_of(out.as_slice())
}

// ---------------------------------------------------------------------------
// Fixed text fragments
// ---------------------------------------------------------------------------

/// `"package "`.
pub open spec fn package_prefix() -> Seq<char> {
    seq!['p', 'a', 'c', 'k', 'a', 'g', 'e', ' ']
}

/// `"import "`.
pub open spec fn import_prefix() -> Seq<char> {
    seq!['i', 'm', 'p', 'o', 'r', 't', ' ']
}

/// `"public val "`.
pub open spec fn public_val_marker() -> Seq<char> {
    seq!['p', 'u', 'b', 'l', 'i', 'c', ' ', 'v', 'a', 'l', ' ']
}

fn package_prefix_chars() -> (v: Vec<char>)
    ensures
        v@ == package_prefix(),
{
    let v = vec!['p', 'a', 'c', 'k', 'a', 'g', 'e', ' '];
    assert(v@ == package_prefix());
    v
}

fn import_prefix_chars() -> (v: Vec<char>)
    ensures
        v@ == import_prefix(),
{
    let v = vec!['i', 'm', 'p', 'o', 'r', 't', ' '];
    assert(v@ == import_prefix());
    v
}

fn public_val_chars() -> (v: Vec<char>)
    ensures
        v@ == public_val_marker(),
{
    let v = vec!['p', 'u', 'b', 'l', 'i', 'c', ' ', 'v', 'a', 'l', ' '];
    assert(v@ == public_val_marker());
    v
}

/// Whether the line, after its leading whitespace, starts with `p`.
fn trimmed_starts_with(l: &Vec<char>, p: &Vec<char>) -> (r: bool)
    ensures
        r == starts_with(trim_start(l@), p@),
{
    let k = trim_start_index(l.as_slice());
    starts_with_at(l.as_slice(), k, p.as_slice())
}

// ---------------------------------------------------------------------------
// Package declaration
// ---------------------------------------------------------------------------

/// A line that declares the package.
pub open spec fn is_package_line(l: Seq<char>) -> bool {
    starts_with(trim_start(l), package_prefix())
}

/// Index of the first package line at or after `i`.
pub open spec fn package_line_from(ls: Seq<Seq<char>>, i: int) -> Option<int>
    decreases ls.len() - i,
{
    if i < 0 || i >= ls.len() {
        None
    } else if is_package_line(ls[i]) {
        Some(i)
    } else {
        package_line_from(ls, i + 1)
    }
}

/// `source` with its first package line replaced by `package <package>`
/// (lines re-joined with `'\n'` and a final `'\n'`), or with
/// `package <package>\n` put in front when it declares none.
pub open spec fn set_package_spec(source: Seq<char>, package: Seq<char>) -> Seq<char> {
    let pl = package_prefix() + package;
    let ls = lines(source);
    match package_line_from(ls, 0) {
        Some(j) => join_lines(ls.update(j, pl)) + seq!['\n'],
        None => pl + seq!['\n'] + source,
    }
}

/// Index of the first package line.
fn package_line_index(lines: &Vec<Vec<char>>) -> (r: Option<usize>)
    ensures
        match r {
            Some(k) => package_line_from(views(lines@), 0) == Some(k as int),
            None => package_line_from(views(lines@), 0) is None,
        },
        r matches Some(k) ==> k < lines@.len(),
{
    let prefix = package_prefix_chars();
    let mut i: usize = 0;
    while i < lines.len()
        invariant
            i <= lines@.len(),
            prefix@ == package_prefix(),
            package_line_from(views(lines@), i as int) == package_line_from(views(lines@), 0),
        decreases lines.len() - i,
    {
        if trimmed_starts_with(&lines[i], &prefix) {
            return Some(i);
        }
        i = i + 1;
    }
    None
}

/// Replace the package declaration in Kotlin source, or insert one if missing.
pub fn set_package(source: &str, package: &str) -> (r: String)
    ensures
        r@ == set_package_spec(source@, package@),
{
    let src = chars_of(source);
    let mut pl = package_prefix_chars();
    let pkg = chars_of(package);
    extend_chars(&mut pl, pkg.as_slice());
    let mut ls = split_lines(src.as_slice());
    match package_line_index(&ls) {
        Some(j) => {
            let ghost before = ls@;
            ls.set(j, pl);
            assert(views(ls@) =~= views(before).update(j as int, package_prefix() + package@));
            let out = join_lines_nl(&ls);
            string_of(out.as_slice())
        },
        None => {
            let mut out = pl;
            out.push('\n');
            extend_chars(&mut out, src.as_slice());
            string_of(out.as_slice())
        },
    }
}

// ---------------------------------------------------------------------------
// Imports
// ---------------------------------------------------------------------------

/// A line that is an import statement.
pub open spec fn is_import_line(l: Seq<char>) -> bool {
    starts_with(trim_start(l), import_prefix())
}

/// Index of the first import line at or after `i`.
pub open spec fn import_line_from(ls: Seq<Seq<char>>, i: int) -> Option<int>
    decreases ls.len() - i,
{
    if i < 0 || i >= ls.len() {
        None
    } else if is_import_line(ls[i]) {
        Some(i)
    } else {
        import_line_from(ls, i + 1)
    }
}

/// End (one past the last import line) of the import block that is being
/// scanned at `i`, where `end` is the end found so far: import lines extend
/// the block, blank lines are passed over, any other line closes it.
pub open spec fn import_block_end(ls: Seq<Seq<char>>, i: int, end: int) -> int
    decreases ls.len() - i,
{
    if i < 0 || i >= ls.len() {
        end
    } else if is_import_line(ls[i]) {
        import_block_end(ls, i + 1, i + 1)
    } else if is_blank(ls[i]) {
        import_block_end(ls, i + 1, end)
    } else {
        end
    }
}

/// Some line in `[lo, hi)` equals `target` once its leading whitespace is removed.
pub open spec fn block_has_line(ls: Seq<Seq<char>>, lo: int, hi: int, target: Seq<char>) -> bool {
    exists|k: int| lo <= k < hi && trim_start(#[trigger] ls[k]) == target
}

/// `source` with `import <path>` added: unchanged when some line already holds
/// that statement (leading whitespace aside); otherwise the statement is
/// inserted at the end of the first import block, or, with no import at all,
/// right after the first package line, or else as the first line (lines
/// re-joined with `'\n'` and a final `'\n'`).
pub open spec fn add_import_spec(source: Seq<char>, path: Seq<char>) -> Seq<char> {
    let il = import_prefix() + path;
    let ls = lines(source);
    if block_has_line(ls, 0, ls.len() as int, il) {
        source
    } else {
        match import_line_from(ls, 0) {
            Some(s) => join_lines(ls.insert(import_block_end(ls, s + 1, s + 1), il)) + seq!['\n'],
            None => match package_line_from(ls, 0) {
                Some(p) => join_lines(ls.insert(p + 1, il)) + seq!['\n'],
                None => join_lines(ls.insert(0, il)) + seq!['\n'],
            },
        }
    }
}

fn insert_and_join(ls: Vec<Vec<char>>, at: usize, line: Vec<char>) -> (r: String)
    requires
        at <= ls@.len(),
    ensures
        r@ == join_lines(views(ls@).insert(at as int, line@)) + seq!['\n'],
{
    let mut ls = ls;
    let ghost before = ls@;
    let ghost lv = line@;
    ls.insert(at, line);
    assert(views(ls@) =~= views(before).insert(at as int, lv));
    let out = join_lines_nl(&ls);
    string_of(out.as_slice())
}

/// Insert an import statement, keeping it within the existing import block and
/// avoiding duplicates. If no import block exists, the import is added right
/// after the package declaration.
pub fn add_import(source: &str, import_path: &str) -> (r: String)
    ensures
        r@ == add_import_spec(source@, import_path@),
{
    let src = chars_of(source);
    let mut il = import_prefix_chars();
    let path = chars_of(import_path);
    extend_chars(&mut il, path.as_slice());
    let prefix = import_prefix_chars();
    let ls = split_lines(src.as_slice());
    let ghost vs = views(ls@);

    // Skip if already present.
    assert(vs == lines(source@));
    let mut j: usize = 0;
    while j < ls.len()
        invariant
            j <= ls@.len(),
            vs == views(ls@),
            vs == lines(source@),
            il@ == import_prefix() + import_path@,
            forall|k: int| 0 <= k < j ==> trim_start(#[trigger] vs[k]) != il@,
        decreases ls.len() - j,
    {
        let k = trim_start_index(ls[j].as_slice());
        if equals_at(ls[j].as_slice(), k, il.as_slice()) {
            assert(trim_start(vs[j as int]) == il@);
            assert(block_has_line(vs, 0, vs.len() as int, il@));
            return source.to_owned();
        }
        j = j + 1;
    }
    assert(!block_has_line(vs, 0, vs.len() as int, il@));

    // Locate the contiguous import block.
    let mut start: Option<usize> = None;
    let mut end: usize = 0;
    let mut done = false;
    let mut i: usize = 0;
    while i < ls.len() && !done
        invariant
            i <= ls@.len(),
            vs == views(ls@),
            prefix@ == import_prefix(),
            !block_has_line(vs, 0, vs.len() as int, il@),
            start is None ==> !done && import_line_from(vs, i as int) == import_line_from(vs, 0),
            start matches Some(s) ==> {
                &&& import_line_from(vs, 0) == Some(s as int)
                &&& s < i
                &&& s < end <= i
                &&& import_block_end(vs, s + 1, s + 1) == if done {
                    end as int
                } else {
                    import_block_end(vs, i as int, end as int)
                }
            },
        decreases ls.len() - i + (if done { 0int } else { 1int }),
    {
        let k = trim_start_index(ls[i].as_slice());
        let is_import = starts_with_at(ls[i].as_slice(), k, prefix.as_slice());
        if is_import {
            if start.is_none() {
                start = Some(i);
            }
            end = i + 1;
            i = i + 1;
        } else if start.is_some() && k < ls[i].len() {
            done = true;
        } else {
            i = i + 1;
        }
    }

    assert(vs == lines(source@));
    assert(start matches Some(s) ==> import_block_end(vs, s + 1, s + 1) == end as int);
    match start {
        Some(_) => insert_and_join(ls, end, il),
        None => {
            match package_line_index(&ls) {
                Some(p) => insert_and_join(ls, p + 1, il),
                None => insert_and_join(ls, 0, il),
            }
        },
    }
}

// ---------------------------------------------------------------------------
// Extension receiver
// ---------------------------------------------------------------------------

/// `source` with `<receiver>.` inserted right after its first `"public val "`,
/// or unchanged when it has none.
pub open spec fn set_extension_class_spec(source: Seq<char>, receiver: Seq<char>) -> Seq<char> {
    match find_from(source, public_val_marker(), 0) {
        Some(p) => {
            let pos = p + public_val_marker().len();
            source.take(pos) + receiver + seq!['.'] + source.skip(pos)
        },
        None => source,
    }
}

/// Turn the top-level icon property into an extension property of `receiver`.
///
/// `public val home: ImageVector` becomes
/// `public val Rounded.home: ImageVector`. `receiver` is the receiver type as
/// used in code (without a trailing dot). The backing field (`private var _home`)
/// is left untouched.
pub fn set_extension_class(source: &str, receiver: &str) -> (r: String)
    ensures
        r@ == set_extension_class_spec(source@, receiver@),
{
    let src = chars_of(source);
    let marker = public_val_chars();
    assert(src@.len() == src.len());
    match find_chars(src.as_slice(), marker.as_slice(), 0) {
        Some(p) => {
            let pos = p + marker.len();
            let mut out: Vec<char> = Vec::new();
            extend_range(&mut out, src.as_slice(), 0, pos);
            let recv = chars_of(receiver);
            extend_chars(&mut out, recv.as_slice());
            out.push('.');
            extend_range(&mut out, src.as_slice(), pos, src.len());
            assert(src@.subrange(0, pos as int) == src@.take(pos as int));
            assert(src@.subrange(pos as int, src@.len() as int) == src@.skip(pos as int));
            string_of(out.as_slice())
        },
        None => string_of(src.as_slice()),
    }
}

// ---------------------------------------------------------------------------
// Renaming the icon field
// ---------------------------------------------------------------------------

/// Characters that may occur in a Kotlin identifier (as this rewriting sees them).
pub open spec fn is_ident_char_spec(c: char) -> bool {
    c == '_' || is_ascii_alnum(c)
}

/// `needle` occurs at `i` in `s` as a complete identifier: not preceded nor
/// followed by an identifier character.
pub open spec fn ident_at(s: Seq<char>, needle: Seq<char>, i: int) -> bool {
    &&& 0 <= i
    &&& i + needle.len() <= s.len()
    &&& s.subrange(i, i + needle.len()) == needle
    &&& (i == 0 || !is_ident_char_spec(s[i - 1]))
    &&& (i + needle.len() >= s.len() || !is_ident_char_spec(s[i + needle.len()]))
}

/// `s` from position `i` on, with every complete-identifier occurrence of
/// `needle` (scanning left to right, without overlaps) replaced.
pub open spec fn replace_ident_from(s: Seq<char>, needle: Seq<char>, replacement: Seq<char>, i: int) -> Seq<char>
    decreases s.len() - i,
{
    if i < 0 || i >= s.len() {
        seq![]
    } else if needle.len() > 0 && ident_at(s, needle, i) {
        replacement + replace_ident_from(s, needle, replacement, i + needle.len())
    } else {
        seq![s[i]] + replace_ident_from(s, needle, replacement, i + 1)
    }
}

/// `s` with every complete-identifier occurrence of `needle` replaced.
pub open spec fn replace_ident_spec(s: Seq<char>, needle: Seq<char>, replacement: Seq<char>) -> Seq<char> {
    replace_ident_from(s, needle, replacement, 0)
}

/// Renaming of the snake_case field `snake` (and its backing field `_snake`)
/// to UpperCamelCase; no change when the UpperCamelCase form equals `snake`.
pub open spec fn rename_field_upper_camel_spec(source: Seq<char>, snake: Seq<char>) -> Seq<char> {
    let pascal = upper_camel_case_of(snake);
    if pascal == snake {
        source
    } else {
        let after_backing = replace_ident_spec(
            source,
            seq!['_'] + snake,
            seq!['_'] + pascal,
        );
        replace_ident_spec(after_backing, snake, pascal)
    }
}

/// Whether `c` may occur in an identifier.
fn is_ident_char(c: char) -> (b: bool)
    ensures
        b == is_ident_char_spec(c),
{
    c == '_' || ('0' <= c && c <= '9') || ('a' <= c && c <= 'z') || ('A' <= c && c <= 'Z')
}

/// Replace every occurrence of `needle` that forms a complete Kotlin identifier
/// (i.e. not adjacent to other identifier characters on either side).
fn replace_ident(source: &str, needle: &str, replacement: &str) -> (r: String)
    requires
        needle@.len() > 0,
    ensures
        r@ == replace_ident_spec(source@, needle@, replacement@),
{
    let chars = chars_of(source);
    let needle_chars = chars_of(needle);
    let repl = chars_of(replacement);
    let n = needle_chars.len();
    let mut out: Vec<char> = Vec::new();
    let mut i: usize = 0;
    while i < chars.len()
        invariant
            n == needle_chars@.len(),
            n > 0,
            i <= chars@.len(),
            out@ + replace_ident_from(chars@, needle_chars@, repl@, i as int)
                == replace_ident_from(chars@, needle_chars@, repl@, 0),
        decreases chars.len() - i,
    {
        let mut matched = false;
        if n <= chars.len() - i && starts_with_at(chars.as_slice(), i, needle_chars.as_slice()) {
            let prev_ok = i == 0 || !is_ident_char(chars[i - 1]);
            let next_ok = i + n >= chars.len() || !is_ident_char(chars[i + n]);
            matched = prev_ok && next_ok;
        }
        proof {
            if n <= chars@.len() - i {
                assert(chars@.skip(i as int).take(n as int) == chars@.subrange(i as int, i + n));
            }
        }
        assert(matched == ident_at(chars@, needle_chars@, i as int));
        if matched {
            let ghost rest = replace_ident_from(chars@, needle_chars@, repl@, i + n);
            let ghost before = out@;
            extend_chars(&mut out, repl.as_slice());
            assert(out@ + rest == before + (repl@ + rest));
            i = i + n;
        } else {
            let ghost rest = replace_ident_from(chars@, needle_chars@, repl@, i + 1);
            let ghost before = out@;
            out.push(chars[i]);
            assert(out@ + rest == before + (seq![chars@[i as int]] + rest));
            i = i + 1;
        }
    }
    string_of(out.as_slice())
}

/// Rename the icon property and its backing field from snake_case to UpperCamelCase.
///
/// `snake_name` is the field name as it appears in the downloaded source
/// (e.g. `arrow_back`). The backing field `_{snake_name}` is renamed first so
/// its inner `{snake_name}` substring is not touched by the subsequent pass.
pub fn rename_field_upper_camel(source: &str, snake_name: &str) -> (r: String)
    ensures
        r@ == rename_field_upper_camel_spec(source@, snake_name@),
{
    let pascal = upper_camel_case(snake_name);
    let pascal_chars = chars_of(pascal.as_str());
    let snake_chars = chars_of(snake_name);
    proof {
        if snake_name@.len() == 0 {
            assert(pascal_chars@.skip(0) =~= snake_chars@);
        }
    }
    if equals_at(pascal_chars.as_slice(), 0, snake_chars.as_slice()) {
        assert(pascal_chars@.skip(0) == pascal_chars@);
        return source.to_owned();
    }
    assert(pascal_chars@.skip(0) == pascal_chars@);
    let mut backing: Vec<char> = vec!['_'];
    extend_chars(&mut backing, snake_chars.as_slice());
    let mut backing_pascal: Vec<char> = vec!['_'];
    extend_chars(&mut backing_pascal, pascal_chars.as_slice());
    assert(backing@ == seq!['_'] + snake_name@);
    assert(backing_pascal@ == seq!['_'] + pascal@);
    let backing_s = string_of(backing.as_slice());
    let backing_pascal_s = string_of(backing_pascal.as_slice());
    let after_backing = replace_ident(source, backing_s.as_str(), backing_pascal_s.as_str());
    replace_ident(after_backing.as_str(), snake_name, pascal.as_str())
}

// ---------------------------------------------------------------------------
// Facts about the line scans
// ---------------------------------------------------------------------------

proof fn lemma_package_line_from_spec(ls: Seq<Seq<char>>, i: int)
    requires
        0 <= i,
    ensures
        match package_line_from(ls, i) {
            Some(j) => i <= j < ls.len() && is_package_line(ls[j]) && forall|k: int|
                i <= k < j ==> !is_package_line(#[trigger] ls[k]),
            None => forall|k: int| i <= k < ls.len() ==> !is_package_line(#[trigger] ls[k]),
        },
    decreases ls.len() - i,
{
    if i < ls.len() && !is_package_line(ls[i]) {
        lemma_package_line_from_spec(ls, i + 1);
    }
}

proof fn lemma_package_line_from_at(ls: Seq<Seq<char>>, i: int, j: int)
    requires
        0 <= i <= j < ls.len(),
        is_package_line(ls[j]),
        forall|k: int| i <= k < j ==> !is_package_line(#[trigger] ls[k]),
    ensures
        package_line_from(ls, i) == Some(j),
    decreases j - i,
{
    if i < j {
        lemma_package_line_from_at(ls, i + 1, j);
    }
}

proof fn lemma_import_line_from_spec(ls: Seq<Seq<char>>, i: int)
    requires
        0 <= i,
    ensures
        match import_line_from(ls, i) {
            Some(j) => i <= j < ls.len() && is_import_line(ls[j]) && forall|k: int|
                i <= k < j ==> !is_import_line(#[trigger] ls[k]),
            None => forall|k: int| i <= k < ls.len() ==> !is_import_line(#[trigger] ls[k]),
        },
    decreases ls.len() - i,
{
    if i < ls.len() && !is_import_line(ls[i]) {
        lemma_import_line_from_spec(ls, i + 1);
    }
}

proof fn lemma_import_line_from_at(ls: Seq<Seq<char>>, i: int, j: int)
    requires
        0 <= i <= j < ls.len(),
        is_import_line(ls[j]),
        forall|k: int| i <= k < j ==> !is_import_line(#[trigger] ls[k]),
    ensures
        import_line_from(ls, i) == Some(j),
    decreases j - i,
{
    if i < j {
        lemma_import_line_from_at(ls, i + 1, j);
    }
}

proof fn lemma_block_end_bounds(ls: Seq<Seq<char>>, i: int, end: int)
    requires
        0 <= i,
        end <= i,
    ensures
        end <= import_block_end(ls, i, end),
        end <= ls.len() ==> import_block_end(ls, i, end) <= ls.len(),
        forall|k: int|
            i <= k < import_block_end(ls, i, end) ==> is_import_line(#[trigger] ls[k]) || is_blank(
                ls[k],
            ),
    decreases ls.len() - i,
{
    if i < ls.len() {
        if is_import_line(ls[i]) {
            lemma_block_end_bounds(ls, i + 1, i + 1);
        } else if is_blank(ls[i]) {
            lemma_block_end_bounds(ls, i + 1, end);
        }
    }
}

proof fn lemma_block_end_reaches(ls: Seq<Seq<char>>, i: int, end: int, m: int)
    requires
        0 <= i <= m < ls.len(),
        end <= i,
        is_import_line(ls[m]),
        forall|k: int| i <= k < m ==> is_import_line(#[trigger] ls[k]) || is_blank(ls[k]),
    ensures
        import_block_end(ls, i, end) > m,
    decreases m - i,
{
    if is_import_line(ls[i]) {
        if i == m {
            lemma_block_end_bounds(ls, i + 1, i + 1);
        } else {
            lemma_block_end_reaches(ls, i + 1, i + 1, m);
        }
    } else {
        lemma_block_end_reaches(ls, i + 1, end, m);
    }
}

/// The line predicates agree on two sequences of lines, position by position.
spec fn same_kinds(a: Seq<Seq<char>>, b: Seq<Seq<char>>) -> bool {
    &&& a.len() == b.len()
    &&& forall|k: int|
        0 <= k < a.len() ==> {
            &&& is_import_line(#[trigger] a[k]) == is_import_line(b[k])
            &&& is_package_line(a[k]) == is_package_line(b[k])
            &&& is_blank(a[k]) == is_blank(b[k])
        }
}

proof fn lemma_same_kinds_scans(a: Seq<Seq<char>>, b: Seq<Seq<char>>, i: int, end: int)
    requires
        same_kinds(a, b),
    ensures
        package_line_from(a, i) == package_line_from(b, i),
        import_line_from(a, i) == import_line_from(b, i),
        import_block_end(a, i, end) == import_block_end(b, i, end),
    decreases a.len() - i,
{
    if 0 <= i < a.len() {
        lemma_same_kinds_scans(a, b, i + 1, end);
        lemma_same_kinds_scans(a, b, i + 1, i + 1);
    }
}

proof fn lemma_strip_all_same_kinds(ls: Seq<Seq<char>>)
    ensures
        same_kinds(strip_all(ls), ls),
{
    assert forall|k: int| 0 <= k < ls.len() implies {
        &&& is_import_line(#[trigger] strip_all(ls)[k]) == is_import_line(ls[k])
        &&& is_package_line(strip_all(ls)[k]) == is_package_line(ls[k])
        &&& is_blank(strip_all(ls)[k]) == is_blank(ls[k])
    } by {
        lemma_strip_cr_line(ls[k], import_prefix());
        lemma_strip_cr_line(ls[k], package_prefix());
    }
}

/// Facts about a statement line `prefix + tail` whose tail holds no line break.
proof fn lemma_statement_line(prefix: Seq<char>, tail: Seq<char>)
    requires
        prefix.len() > 0,
        !is_white_space(prefix[0]),
        prefix.last() != '\r',
        no_newline(prefix),
        no_newline(tail),
        !(tail.len() > 0 && tail.last() == '\r'),
    ensures
        no_newline(prefix + tail),
        strip_cr(prefix + tail) == prefix + tail,
        trim_start(prefix + tail) == prefix + tail,
        starts_with(trim_start(prefix + tail), prefix),
{
    let l = prefix + tail;
    assert(l[0] == prefix[0]);
    assert(l.take(prefix.len() as int) =~= prefix);
    if tail.len() > 0 {
        assert(l.last() == tail.last());
    } else {
        assert(l =~= prefix);
    }
    assert forall|k: int| 0 <= k < l.len() implies l[k] != '\n' by {
        if k < prefix.len() {
            assert(l[k] == prefix[k]);
        } else {
            assert(l[k] == tail[k - prefix.len()]);
        }
    }
}

proof fn lemma_insert_no_newline(ls: Seq<Seq<char>>, at: int, l: Seq<char>)
    requires
        0 <= at <= ls.len(),
        all_no_newline(ls),
        no_newline(l),
    ensures
        all_no_newline(ls.insert(at, l)),
{
    assert forall|k: int| 0 <= k < ls.insert(at, l).len() implies no_newline(
        #[trigger] ls.insert(at, l)[k],
    ) by {
        if k < at {
            assert(ls.insert(at, l)[k] == ls[k]);
        } else if k > at {
            assert(ls.insert(at, l)[k] == ls[k - 1]);
        }
    }
}

// ---------------------------------------------------------------------------
// Laws
// ---------------------------------------------------------------------------

/// After the package is set, the first package declaration of the result is
/// `package <package>` (for a package name that holds no line break).
pub proof fn lemma_set_package_declares(source: Seq<char>, package: Seq<char>)
    requires
        no_newline(package),
        !(package.len() > 0 && package.last() == '\r'),
    ensures
        package_line_from(lines(set_package_spec(source, package)), 0) matches Some(j) && lines(
            set_package_spec(source, package),
        )[j] == package_prefix() + package,
{
    let pl = package_prefix() + package;
    let ls = lines(source);
    lemma_statement_line(package_prefix(), package);
    lemma_lines_no_newline(source);
    lemma_package_line_from_spec(ls, 0);
    match package_line_from(ls, 0) {
        Some(j) => {
            let m = ls.update(j, pl);
            assert(all_no_newline(m)) by {
                assert forall|k: int| 0 <= k < m.len() implies no_newline(#[trigger] m[k]) by {
                    if k != j {
                        assert(m[k] == ls[k]);
                    }
                }
            }
            lemma_lines_of_joined(m);
            lemma_strip_all_same_kinds(m);
            lemma_same_kinds_scans(strip_all(m), m, 0, 0);
            assert forall|k: int| 0 <= k < j implies !is_package_line(#[trigger] m[k]) by {
                assert(m[k] == ls[k]);
            }
            lemma_package_line_from_at(m, 0, j);
            assert(strip_all(m)[j] == strip_cr(pl));
        },
        None => {
            lemma_lines_cons(pl, source);
            let out = seq![strip_cr(pl)] + ls;
            assert(out[0] == pl);
            lemma_package_line_from_at(out, 0, 0);
        },
    }
}

/// An import that is not yet present is added inside the first import block
/// of the result (for an import path that holds no line break).
pub proof fn lemma_add_import_in_first_block(source: Seq<char>, path: Seq<char>)
    requires
        no_newline(path),
        !(path.len() > 0 && path.last() == '\r'),
        !block_has_line(lines(source), 0, lines(source).len() as int, import_prefix() + path),
    ensures
        ({
            let out = lines(add_import_spec(source, path));
            import_line_from(out, 0) matches Some(f) && block_has_line(
                out,
                f,
                import_block_end(out, f + 1, f + 1),
                import_prefix() + path,
            )
        }),
{
    let il = import_prefix() + path;
    let ls = lines(source);
    lemma_statement_line(import_prefix(), path);
    lemma_lines_no_newline(source);
    lemma_import_line_from_spec(ls, 0);
    let r1 = add_import_spec(source, path);
    // The position where the statement goes, when it is not already present.
    let at: int = match import_line_from(ls, 0) {
        Some(s) => import_block_end(ls, s + 1, s + 1),
        None => match package_line_from(ls, 0) {
            Some(p) => p + 1,
            None => 0,
        },
    };
    let first: int = match import_line_from(ls, 0) {
        Some(s) => s,
        None => at,
    };
    if let Some(s) = import_line_from(ls, 0) {
        lemma_block_end_bounds(ls, s + 1, s + 1);
    } else {
        lemma_package_line_from_spec(ls, 0);
    }
    assert(0 <= first <= at <= ls.len());
    let m = ls.insert(at, il);
    assert(r1 == join_lines(m) + seq!['\n']);
    lemma_insert_no_newline(ls, at, il);
    lemma_lines_of_joined(m);
    let n = strip_all(m);
    assert(lines(r1) == n);
    lemma_strip_all_same_kinds(m);
    lemma_same_kinds_scans(n, m, 0, 0);
    lemma_same_kinds_scans(n, m, first + 1, first + 1);
    assert(m[at] == il);
    // The first import line of the new text.
    assert forall|k: int| 0 <= k < first implies !is_import_line(#[trigger] m[k]) by {
        assert(m[k] == ls[k]);
    }
    if first < at {
        assert(m[first] == ls[first]);
    }
    lemma_import_line_from_at(m, 0, first);
    // Its block reaches past the inserted statement.
    let e2 = import_block_end(m, first + 1, first + 1);
    if first < at {
        assert forall|k: int| first + 1 <= k < at implies is_import_line(#[trigger] m[k])
            || is_blank(m[k]) by {
            assert(m[k] == ls[k]);
        }
        lemma_block_end_reaches(m, first + 1, first + 1, at);
    } else {
        lemma_block_end_bounds(m, first + 1, first + 1);
    }
    assert(e2 > at);
    assert(n[at] == il);
    assert(trim_start(n[at]) == il);
    assert(block_has_line(n, first, e2, il));
}

/// An import that some line already holds is never added a second time.
pub proof fn lemma_add_import_keeps_present(source: Seq<char>, path: Seq<char>)
    requires
        block_has_line(lines(source), 0, lines(source).len() as int, import_prefix() + path),
    ensures
        add_import_spec(source, path) == source,
{
}

/// After `add_import`, some line of the result is the import statement (for
/// an import path that holds no line break).
pub proof fn lemma_add_import_present(source: Seq<char>, path: Seq<char>)
    requires
        no_newline(path),
        !(path.len() > 0 && path.last() == '\r'),
    ensures
        ({
            let out = lines(add_import_spec(source, path));
            block_has_line(out, 0, out.len() as int, import_prefix() + path)
        }),
{
    let il = import_prefix() + path;
    let ls = lines(source);
    if !block_has_line(ls, 0, ls.len() as int, il) {
        lemma_add_import_in_first_block(source, path);
        let out = lines(add_import_spec(source, path));
        let f = import_line_from(out, 0)->0;
        lemma_import_line_from_spec(out, 0);
        lemma_block_end_bounds(out, f + 1, f + 1);
        let e = import_block_end(out, f + 1, f + 1);
        let k = choose|k: int| f <= k < e && trim_start(#[trigger] out[k]) == il;
        assert(0 <= k < out.len() && trim_start(out[k]) == il);
    }
}

/// Adding an import a second time changes nothing (for an import path that
/// holds no line break).
pub proof fn lemma_add_import_idempotent(source: Seq<char>, path: Seq<char>)
    requires
        no_newline(path),
        !(path.len() > 0 && path.last() == '\r'),
    ensures
        add_import_spec(add_import_spec(source, path), path) == add_import_spec(source, path),
{
    lemma_add_import_present(source, path);
}

/// With no complete-identifier occurrence of `needle`, replacing leaves the
/// text unchanged.
pub proof fn lemma_replace_ident_untouched(s: Seq<char>, needle: Seq<char>, replacement: Seq<char>)
    requires
        forall|i: int| !ident_at(s, needle, i),
    ensures
        replace_ident_spec(s, needle, replacement) == s,
{
    lemma_replace_ident_untouched_from(s, needle, replacement, 0);
    assert(s.skip(0) =~= s);
}

proof fn lemma_replace_ident_untouched_from(
    s: Seq<char>,
    needle: Seq<char>,
    replacement: Seq<char>,
    i: int,
)
    requires
        0 <= i,
        forall|k: int| !ident_at(s, needle, k),
    ensures
        replace_ident_from(s, needle, replacement, i) == if i < s.len() {
            s.skip(i)
        } else {
            seq![]
        },
    decreases s.len() - i,
{
    if i < s.len() {
        lemma_replace_ident_untouched_from(s, needle, replacement, i + 1);
        assert(!ident_at(s, needle, i));
        if i + 1 < s.len() {
            assert(seq![s[i]] + s.skip(i + 1) =~= s.skip(i));
        } else {
            assert(seq![s[i]] + Seq::<char>::empty() =~= s.skip(i));
        }
    }
}

/// When the UpperCamelCase form of the field name equals the name itself,
/// renaming leaves the source unchanged.
pub proof fn lemma_rename_already_upper_camel(source: Seq<char>, snake: Seq<char>)
    requires
        upper_camel_case_of(snake) == snake,
    ensures
        rename_field_upper_camel_spec(source, snake) == source,
{
}

/// Setting the same package twice gives the same text as setting it once,
/// for a text without `'\r'` that declares a package, is empty, or ends with
/// `'\n'`, and a package name without line breaks.
pub proof fn lemma_set_package_idempotent(source: Seq<char>, package: Seq<char>)
    requires
        avoids(source, '\r'),
        no_newline(package),
        avoids(package, '\r'),
        package_line_from(lines(source), 0) is Some || source.len() == 0 || source.last() == '\n',
    ensures
        set_package_spec(set_package_spec(source, package), package) == set_package_spec(
            source,
            package,
        ),
{
    let pl = package_prefix() + package;
    let ls = lines(source);
    if package.len() > 0 {
        assert(package.last() != '\r');
    }
    lemma_statement_line(package_prefix(), package);
    assert(avoids(pl, '\r')) by {
        assert forall|k: int| 0 <= k < pl.len() implies pl[k] != '\r' by {
            if k >= package_prefix().len() {
                assert(pl[k] == package[k - package_prefix().len()]);
            }
        }
    }
    lemma_lines_no_newline(source);
    lemma_lines_avoid_cr(source);
    lemma_set_package_declares(source, package);
    let r1 = set_package_spec(source, package);
    match package_line_from(ls, 0) {
        Some(j) => {
            lemma_package_line_from_spec(ls, 0);
            let m = ls.update(j, pl);
            assert(all_no_newline(m)) by {
                assert forall|k: int| 0 <= k < m.len() implies no_newline(#[trigger] m[k]) by {
                    if k != j {
                        assert(m[k] == ls[k]);
                    }
                }
            }
            lemma_lines_of_joined(m);
            assert(strip_all(m) =~= m) by {
                assert forall|k: int| 0 <= k < m.len() implies #[trigger] strip_all(m)[k]
                    == m[k] by {
                    if k != j {
                        assert(m[k] == ls[k]);
                        assert(avoids(ls[k], '\r'));
                        if ls[k].len() > 0 {
                            assert(ls[k][ls[k].len() - 1] != '\r');
                        }
                    }
                }
            }
            assert(r1 == join_lines(m) + seq!['\n']);
            assert(lines(r1) == m);
            let j2 = package_line_from(m, 0)->0;
            lemma_package_line_from_spec(m, 0);
            assert(m[j2] == pl);
            assert(m.update(j2, pl) =~= m);
        },
        None => {
            lemma_lines_cons(pl, source);
            let m = seq![pl] + ls;
            assert(lines(r1) == m);
            let j2 = package_line_from(m, 0)->0;
            lemma_package_line_from_spec(m, 0);
            assert(m[j2] == pl);
            assert(m.update(j2, pl) =~= m);
            if source.len() == 0 {
                assert(ls =~= Seq::<Seq<char>>::empty());
                assert(m =~= seq![pl]);
                assert(r1 =~= pl + seq!['\n']);
            } else {
                lemma_join_lines_terminated(source);
                assert(ls.len() > 0);
                assert(m[0] == pl);
                assert(m.drop_first() =~= ls);
                lemma_join_unfold_front(m);
                assert(join_lines(m) + seq!['\n'] =~= pl + seq!['\n'] + (join_lines(ls) + seq![
                    '\n',
                ]));
            }
        },
    }
}

/// Replacing an identifier by itself leaves the text unchanged.
pub proof fn lemma_replace_ident_self(s: Seq<char>, needle: Seq<char>)
    ensures
        replace_ident_spec(s, needle, needle) == s,
{
    lemma_replace_ident_self_from(s, needle, 0);
    assert(s.skip(0) =~= s);
}

proof fn lemma_replace_ident_self_from(s: Seq<char>, needle: Seq<char>, i: int)
    requires
        0 <= i,
    ensures
        replace_ident_from(s, needle, needle, i) == if i < s.len() {
            s.skip(i)
        } else {
            seq![]
        },
    decreases s.len() - i,
{
    if i < s.len() {
        if needle.len() > 0 && ident_at(s, needle, i) {
            lemma_replace_ident_self_from(s, needle, i + needle.len());
            if i + needle.len() < s.len() {
                assert(needle + s.skip(i + needle.len()) =~= s.skip(i));
            } else {
                assert(needle + Seq::<char>::empty() =~= s.skip(i));
            }
        } else {
            lemma_replace_ident_self_from(s, needle, i + 1);
            if i + 1 < s.len() {
                assert(seq![s[i]] + s.skip(i + 1) =~= s.skip(i));
            } else {
                assert(seq![s[i]] + Seq::<char>::empty() =~= s.skip(i));
            }
        }
    }
}

/// Whatever the renaming flag, a transform with an extension class imports
/// that class: some line of the result is `import <class>` (for a class name
/// that holds no line break).
pub proof fn lemma_transform_imports_extension_class(
    source: Seq<char>,
    package: Seq<char>,
    field_name: Seq<char>,
    upper_camel_fields: bool,
    class: Seq<char>,
)
    requires
        no_newline(class),
        !(class.len() > 0 && class.last() == '\r'),
    ensures
        ({
            let out = lines(
                transform_spec(source, package, field_name, upper_camel_fields, Some(class)),
            );
            block_has_line(out, 0, out.len() as int, import_prefix() + class)
        }),
{
    let s1 = set_package_spec(source, package);
    let s2 = if upper_camel_fields {
        rename_field_upper_camel_spec(s1, field_name)
    } else {
        s1
    };
    lemma_add_import_present(set_extension_class_spec(s2, after_last_dot(class)), class);
}

/// Where the text has a `public val ` marker, the receiver and a `.` follow
/// its first occurrence in the result, and the text before it is unchanged.
pub proof fn lemma_set_extension_class_inserts_receiver(source: Seq<char>, receiver: Seq<char>)
    requires
        find_from(source, public_val_marker(), 0) is Some,
    ensures
        ({
            let p = find_from(source, public_val_marker(), 0)->0;
            let out = set_extension_class_spec(source, receiver);
            let m = public_val_marker().len();
            &&& out.take(p) == source.take(p)
            &&& out.subrange(p, p + m + receiver.len() + 1) == public_val_marker() + receiver
                + seq!['.']
            &&& out.skip(p + m + receiver.len() + 1) == source.skip(p + m)
        }),
{
    crate::text::lemma_find_from_bounds(source, public_val_marker(), 0);
    let p = find_from(source, public_val_marker(), 0)->0;
    let m = public_val_marker().len();
    let out = set_extension_class_spec(source, receiver);
    assert(out == source.take(p + m) + receiver + seq!['.'] + source.skip(p + m));
    assert(out.take(p) =~= source.take(p));
    assert(source.subrange(p, p + m) == public_val_marker());
    assert(out.subrange(p, p + m + receiver.len() + 1) =~= public_val_marker() + receiver + seq![
        '.',
    ]);
    assert(out.skip(p + m + receiver.len() + 1) =~= source.skip(p + m));
}

/// Without the renaming flag and without an extension class, a transform
/// only sets the package.
pub proof fn lemma_transform_package_only(source: Seq<char>, package: Seq<char>, field_name: Seq<char>)
    ensures
        transform_spec(source, package, field_name, false, None) == set_package_spec(source, package),
{
}

/// The extension step does not depend on the renaming flag: with an extension
/// class, a transform is the transform without one, then the receiver (the
/// class's last dotted segment and a `.`) inserted right after the first
/// `public val ` of that text, then the import of the class added.
pub proof fn lemma_transform_extension_step(
    source: Seq<char>,
    package: Seq<char>,
    field_name: Seq<char>,
    upper_camel_fields: bool,
    class: Seq<char>,
)
    ensures
        ({
            let base = transform_spec(source, package, field_name, upper_camel_fields, None);
            let out = transform_spec(source, package, field_name, upper_camel_fields, Some(class));
            let m = public_val_marker().len();
            &&& out == add_import_spec(set_extension_class_spec(base, after_last_dot(class)), class)
            &&& match find_from(base, public_val_marker(), 0) {
                Some(p) => out == add_import_spec(
                    base.take(p + m) + after_last_dot(class) + seq!['.'] + base.skip(p + m),
                    class,
                ),
                None => out == add_import_spec(base, class),
            }
        }),
{
}

} // verus!
