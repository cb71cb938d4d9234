//! Download jobs built from a validated configuration.
use vstd::prelude::*;

use crate::config::symbol_grade::{grade_text, SymbolGrade};
use crate::config::symbol_name::SymbolName;
use crate::config::symbol_optical_size::{optical_size_text, SymbolOpticalSize};
use crate::config::symbol_style::{style_name, SymbolStyle};
use crate::config::symbol_weight::{weight_text, SymbolWeight};
use crate::config::Config;
use crate::kotlin::{class_view, TransformConfig};
use crate::text::{chars_of, extend_chars, string_of};
use crate::word_case::{snake_case_of, upper_camel_case_of};

verus! {

/// A self-contained download job.
pub struct Task {
    pub symbol_name: SymbolName,
    pub url: String,
    pub output_path: String,
    pub transform: TransformConfig,
}

/// `dir` joined with the relative or absolute path `file`, as `Path::join`
/// does on platforms whose separator is `'/'`: an absolute `file` replaces
/// `dir`; otherwise a `'/'` is put between them unless `dir` is empty or
/// already ends with one. The same `'/'` is used on every platform; Windows
/// also takes `'/'` as a separator, so there the path names the same file
/// that `Path::join` would name with `'\\'`.
pub open spec fn join_path(dir: Seq<char>, file: Seq<char>) -> Seq<char> {
    if file.len() > 0 && file[0] == '/' {
        file
    } else if dir.len() == 0 || dir.last() == '/' {
        dir + file
    } else {
        dir + seq!['/'] + file
    }
}

/// The part of a download URL before the icon name.
pub open spec fn url_head(style: SymbolStyle, optical_size: SymbolOpticalSize) -> Seq<char> {
    "https://fonts.gstatic.com/render/v1/Material+Symbols+"@ + style_name(style) + seq!['/']
        + optical_size_text(optical_size) + "dp/"@
}

/// The part of a download URL after the icon name.
pub open spec fn url_tail(
    optical_size: SymbolOpticalSize,
    weight: SymbolWeight,
    fill: bool,
    grade: SymbolGrade,
) -> Seq<char> {
    ".kt?var=opsz,wght,FILL,GRAD,ROND@"@ + optical_size_text(optical_size) + seq![','] + weight_text(
        weight,
    ) + seq![','] + (if fill {
        seq!['1']
    } else {
        seq!['0']
    }) + seq![','] + grade_text(grade) + ",50"@
}

/// The Google Fonts download URL of an icon's Kotlin source.
pub open spec fn url_spec(
    style: SymbolStyle,
    optical_size: SymbolOpticalSize,
    weight: SymbolWeight,
    fill: bool,
    grade: SymbolGrade,
    name: Seq<char>,
) -> Seq<char> {
    url_head(style, optical_size) + name + url_tail(optical_size, weight, fill, grade)
}

/// The job for the icon named `name` under `config`.
pub open spec fn task_spec(t: Task, config: Config, name: Seq<char>) -> bool {
    &&& t.symbol_name@ == name
    &&& t.url@ == url_spec(
        config.style,
        config.optical_size,
        config.weight,
        config.fill,
        config.grade,
        snake_case_of(name),
    )
    &&& t.output_path@ == join_path(
        config.compose_output_dir@,
        upper_camel_case_of(name) + seq!['.', 'k', 't'],
    )
    &&& t.transform.package@ == config.compose_package@
    &&& t.transform.field_name@ == snake_case_of(name)
    &&& t.transform.upper_camel_fields == config.compose_upper_camel_fields
    &&& class_view(t.transform.extension_class) == class_view(config.compose_extension_class)
}

/// Joins a directory and a file name.
fn join_output_path(dir: &str, file: &[char]) -> (r: String)
    ensures
        r@ == join_path(dir@, file@),
{
    if file.len() > 0 && file[0] == '/' {
        return string_of(file);
    }
    let mut out = chars_of(dir);
    if out.len() > 0 && out[out.len() - 1] != '/' {
        out.push('/');
    }
    extend_chars(&mut out, file);
    string_of(out.as_slice())
}

fn copy_class(c: &Option<String>) -> (r: Option<String>)
    ensures
        class_view(r) == class_view(*c),
{
    match c {
        Some(s) => Some(s.clone()),
        None => None,
    }
}

/// Build download tasks from config: one per icon name, in order. Output
/// paths are joined with `'/'` (see `join_path`).
pub fn build_tasks(config: &Config) -> (r: Vec<Task>)
    ensures
        r@.len() == config.symbol_names@.len(),
        forall|i: int|
            0 <= i < r@.len() ==> task_spec(#[trigger] r@[i], *config, config.symbol_names@[i]@),
{
    let mut tasks: Vec<Task> = Vec::new();
    let mut i: usize = 0;
    while i < config.symbol_names.len()
        invariant
            i <= config.symbol_names@.len(),
            tasks@.len() == i,
            forall|k: int|
                0 <= k < i ==> task_spec(#[trigger] tasks@[k], *config, config.symbol_names@[k]@),
        decreases config.symbol_names.len() - i,
    {
        let symbol = &config.symbol_names[i];
        let mut filename = chars_of(symbol.to_filename().as_str());
        filename.push('.');
        filename.push('k');
        filename.push('t');
        let url_name = symbol.to_url_name();
        let task = Task {
            symbol_name: SymbolName::new(symbol.as_str().to_owned()),
            url: build_url(config, url_name.clone()),
            output_path: join_output_path(config.compose_output_dir.as_str(), filename.as_slice()),
            transform: TransformConfig {
                package: config.compose_package.clone(),
                field_name: url_name,
                upper_camel_fields: config.compose_upper_camel_fields,
                extension_class: copy_class(&config.compose_extension_class),
            },
        };
        assert(filename@ == upper_camel_case_of(config.symbol_names@[i as int]@) + seq![
            '.',
            'k',
            't',
        ]);
        assert(task_spec(task, *config, config.symbol_names@[i as int]@));
        let ghost before = tasks@;
        tasks.push(task);
        assert(forall|k: int| 0 <= k < i ==> tasks@[k] == before[k]);
        i = i + 1;
    }
    tasks
}

/// Build the Google Fonts download URL for a given snake_case icon name.
fn build_url(config: &Config, symbol_name: String) -> (r: String)
    ensures
        r@ == url_spec(
            config.style,
            config.optical_size,
            config.weight,
            config.fill,
            config.grade,
            symbol_name@,
        ),
{
    let mut out = chars_of("https://fonts.gstatic.com/render/v1/Material+Symbols+");
    extend_chars(&mut out, chars_of(config.style.name().as_str()).as_slice());
    out.push('/');
    extend_chars(&mut out, chars_of(config.optical_size.to_text().as_str()).as_slice());
    extend_chars(&mut out, chars_of("dp/").as_slice());
    extend_chars(&mut out, chars_of(symbol_name.as_str()).as_slice());
    extend_chars(&mut out, chars_of(".kt?var=opsz,wght,FILL,GRAD,ROND@").as_slice());
    extend_chars(&mut out, chars_of(config.optical_size.to_text().as_str()).as_slice());
    out.push(',');
    extend_chars(&mut out, chars_of(config.weight.to_text().as_str()).as_slice());
    out.push(',');
    out.push(if config.fill { '1' } else { '0' });
    out.push(',');
    extend_chars(&mut out, chars_of(config.grade.to_text().as_str()).as_slice());
    extend_chars(&mut out, chars_of(",50").as_slice());
    assert(out@ =~= url_spec(
        config.style,
        config.optical_size,
        config.weight,
        config.fill,
        config.grade,
        symbol_name@,
    ));
    string_of(out.as_slice())
}

/// The download URL depends on the style, optical size, weight, fill and
/// grade alone besides the icon name, and different names give different URLs.
pub proof fn lemma_url_determined_by_settings_and_name(
    c1: Config,
    c2: Config,
    n: Seq<char>,
    m: Seq<char>,
)
    requires
        c1.style == c2.style,
        c1.optical_size == c2.optical_size,
        c1.weight == c2.weight,
        c1.fill == c2.fill,
        c1.grade == c2.grade,
    ensures
        url_spec(c1.style, c1.optical_size, c1.weight, c1.fill, c1.grade, n) == url_spec(
            c2.style,
            c2.optical_size,
            c2.weight,
            c2.fill,
            c2.grade,
            n,
        ),
        url_spec(c1.style, c1.optical_size, c1.weight, c1.fill, c1.grade, n) == url_spec(
            c1.style,
            c1.optical_size,
            c1.weight,
            c1.fill,
            c1.grade,
            m,
        ) <==> n == m,
{
    let head = url_head(c1.style, c1.optical_size);
    let tail = url_tail(c1.optical_size, c1.weight, c1.fill, c1.grade);
    let un = url_spec(c1.style, c1.optical_size, c1.weight, c1.fill, c1.grade, n);
    let um = url_spec(c1.style, c1.optical_size, c1.weight, c1.fill, c1.grade, m);
    assert(un == head + n + tail);
    assert(um == head + m + tail);
    assert(un.len() == head.len() + n.len() + tail.len());
    assert(um.len() == head.len() + m.len() + tail.len());
    if un == um {
        assert(n.len() == m.len());
        assert(un.subrange(head.len() as int, (head.len() + n.len()) as int) =~= n);
        assert(um.subrange(head.len() as int, (head.len() + m.len()) as int) =~= m);
    }
}

} // verus!
