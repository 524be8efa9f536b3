//! The report of a schema check, and the shape tests its checks use.
use vstd::prelude::*;
use crate::numbers::{nat_text, usize_text};
use crate::skd_fragments::push_line;
use crate::text::{chars_of, join, join_str, push_chars, push_str, split_once, starts_with, views};

verus! {

/// The findings of a schema check, collected as report lines; it stops
/// counting as useful once `max_errors` errors were found.
pub struct SkdValidationReporter {
    pub errors: usize,
    pub warnings: usize,
    pub ok_count: usize,
    pub stopped: bool,
    pub max_errors: usize,
    pub detailed: bool,
    pub lines: Vec<Vec<char>>,
}

/// The outcome of a schema check: whether it passed, the report text, where it
/// was written, and the error lines.
pub struct SkdValidationRun {
    pub ok: bool,
    pub stdout: Vec<char>,
    pub out_file: Option<Vec<char>>,
    pub out_file_label: Option<Vec<char>>,
    pub artifact: Vec<char>,
    pub errors: Vec<Vec<char>>,
}

/// The report lines that are errors.
pub open spec fn error_lines(lines: Seq<Seq<char>>) -> Seq<Seq<char>> {
    lines.filter(|l: Seq<char>| starts_with(l, "[ERROR] "@))
}

/// The finished report: whether there were no errors, the text, and the error
/// lines. Without findings and not detailed it is one line.
pub open spec fn skd_report(lines: Seq<Seq<char>>, errors: nat, warnings: nat, ok_count: nat, detailed: bool, file_name: Seq<char>) -> (bool, Seq<char>, Seq<Seq<char>>) {
    let checks = ok_count + errors + warnings;
    if errors == 0 && warnings == 0 && !detailed {
        (true, "=== Validation OK: "@ + file_name + " ("@ + nat_text(checks) + " checks) ===\n"@, Seq::empty())
    } else {
        let all = lines + seq![
            Seq::empty(),
            "=== Result: "@ + nat_text(errors) + " errors, "@ + nat_text(warnings) + " warnings ("@ + nat_text(checks)
                + " checks) ==="@,
        ];
        (errors == 0, join(all, "\n"@) + "\n"@, error_lines(all))
    }
}

/// `prefix` followed by `msg`.
pub fn tagged(prefix: &str, msg: &[char]) -> (r: Vec<char>)
    ensures
        r@ == prefix@ + msg@,
{
    let mut r = chars_of(prefix);
    push_chars(&mut r, msg);
    r
}

impl SkdValidationReporter {
    pub fn new(max_errors: usize, detailed: bool, file_name: &[char]) -> (r: Self)
        ensures
            r.errors == 0,
            r.warnings == 0,
            r.ok_count == 0,
            !r.stopped,
            r.max_errors == max_errors,
            r.detailed == detailed,
            views(r.lines@) == seq!["=== Validation: "@ + file_name@ + " ==="@, Seq::<char>::empty()],
    {
        let mut lines: Vec<Vec<char>> = Vec::new();
        let mut head = tagged("=== Validation: ", file_name);
        push_str(&mut head, " ===");
        push_line(&mut lines, head);
        push_line(&mut lines, Vec::new());
        assert(views(lines@) =~= seq!["=== Validation: "@ + file_name@ + " ==="@, Seq::<char>::empty()]);
        SkdValidationReporter { errors: 0, warnings: 0, ok_count: 0, stopped: false, max_errors, detailed, lines }
    }

    /// Counts a passed check; its line is kept only in a detailed report.
    pub fn ok(&mut self, message: &[char])
        requires
            old(self).ok_count < usize::MAX,
        ensures
            final(self).ok_count == old(self).ok_count + 1,
            final(self).errors == old(self).errors,
            final(self).warnings == old(self).warnings,
            final(self).stopped == old(self).stopped,
            final(self).max_errors == old(self).max_errors,
            final(self).detailed == old(self).detailed,
            views(final(self).lines@) == (if old(self).detailed {
                views(old(self).lines@).push("[OK]    "@ + message@)
            } else {
                views(old(self).lines@)
            }),
    {
        self.ok_count = self.ok_count + 1;
        if self.detailed {
            push_line(&mut self.lines, tagged("[OK]    ", message));
        }
    }

    /// Counts an error and records its line; reaching `max_errors` stops the
    /// check.
    pub fn error(&mut self, message: &[char])
        requires
            old(self).errors < usize::MAX,
        ensures
            final(self).errors == old(self).errors + 1,
            final(self).warnings == old(self).warnings,
            final(self).ok_count == old(self).ok_count,
            final(self).stopped == (old(self).stopped || final(self).errors >= old(self).max_errors),
            final(self).max_errors == old(self).max_errors,
            final(self).detailed == old(self).detailed,
            views(final(self).lines@) == views(old(self).lines@).push("[ERROR] "@ + message@),
    {
        self.errors = self.errors + 1;
        push_line(&mut self.lines, tagged("[ERROR] ", message));
        if self.errors >= self.max_errors {
            self.stopped = true;
        }
    }

    /// Counts a warning and records its line.
    pub fn warn(&mut self, message: &[char])
        requires
            old(self).warnings < usize::MAX,
        ensures
            final(self).warnings == old(self).warnings + 1,
            final(self).errors == old(self).errors,
            final(self).ok_count == old(self).ok_count,
            final(self).stopped == old(self).stopped,
            final(self).max_errors == old(self).max_errors,
            final(self).detailed == old(self).detailed,
            views(final(self).lines@) == views(old(self).lines@).push("[WARN]  "@ + message@),
    {
        self.warnings = self.warnings + 1;
        push_line(&mut self.lines, tagged("[WARN]  ", message));
    }

    /// Whether the check passed, the report text, and its error lines.
    pub fn finalize(self, file_name: &[char]) -> (r: (bool, Vec<char>, Vec<Vec<char>>))
        requires
            self.ok_count + self.errors + self.warnings <= usize::MAX,
        ensures
            (r.0, r.1@, views(r.2@)) == skd_report(
                views(self.lines@),
                self.errors as nat,
                self.warnings as nat,
                self.ok_count as nat,
                self.detailed,
                file_name@,
            ),
    {
        let checks: usize = self.ok_count + self.errors + self.warnings;
        let ok = self.errors == 0;
        if ok && self.warnings == 0 && !self.detailed {
            let mut text = tagged("=== Validation OK: ", file_name);
            push_str(&mut text, " (");
            push_chars(&mut text, &usize_text(checks));
            push_str(&mut text, " checks) ===\n");
            let empty: Vec<Vec<char>> = Vec::new();
            assert(views(empty@) =~= Seq::<Seq<char>>::empty());
            return (true, text, empty);
        }
        let ghost l0 = views(self.lines@);
        let mut lines = self.lines;
        push_line(&mut lines, Vec::new());
        let mut total = chars_of("=== Result: ");
        push_chars(&mut total, &usize_text(self.errors));
        push_str(&mut total, " errors, ");
        push_chars(&mut total, &usize_text(self.warnings));
        push_str(&mut total, " warnings (");
        push_chars(&mut total, &usize_text(checks));
        push_str(&mut total, " checks) ===");
        push_line(&mut lines, total);
        let ghost all = views(lines@);
        assert(all =~= l0 + seq![
            Seq::<char>::empty(),
            "=== Result: "@ + nat_text(self.errors as nat) + " errors, "@ + nat_text(self.warnings as nat) + " warnings ("@ + nat_text(checks as nat)
                + " checks) ==="@,
        ]);
        let mut errors: Vec<Vec<char>> = Vec::new();
        let mut i: usize = 0;
        while i < lines.len()
            invariant
                i <= lines@.len(),
                all == views(lines@),
                views(errors@) == error_lines(all.take(i as int)),
            decreases lines.len() - i,
        {
            proof {
                reveal(Seq::filter);
                assert(all.take(i + 1).drop_last() =~= all.take(i as int));
                assert(all.take(i + 1).last() == lines@[i as int]@);
            }
            if crate::text::starts_with_str(&lines[i], "[ERROR] ") {
                push_line(&mut errors, crate::text::to_vec(&lines[i]));
            }
            i = i + 1;
        }
        assert(all.take(i as int) =~= all);
        let mut text = join_str(&lines, "\n");
        push_str(&mut text, "\n");
        (ok, text, errors)
    }
}

/// The run of a finished check.
pub fn skd_validation_finish(
    report: SkdValidationReporter,
    file_name: &[char],
    out_file: Option<Vec<char>>,
    out_file_label: Option<Vec<char>>,
    artifact: Vec<char>,
) -> (r: Result<SkdValidationRun, Vec<char>>)
    requires
        report.ok_count + report.errors + report.warnings <= usize::MAX,
    ensures
        r matches Ok(run) && (run.ok, run.stdout@, views(run.errors@)) == skd_report(
            views(report.lines@),
            report.errors as nat,
            report.warnings as nat,
            report.ok_count as nat,
            report.detailed,
            file_name@,
        ) && run.out_file == out_file && run.out_file_label == out_file_label && run.artifact == artifact,
{
    let (ok, stdout, errors) = report.finalize(file_name);
    Ok(SkdValidationRun { ok, stdout, out_file, out_file_label, artifact, errors })
}

/// The template name of a schema path: the component before the last `Ext`
/// (not the first one), else the whole path as displayed.
pub open spec fn template_name(parts: Seq<Seq<char>>, display: Seq<char>) -> Seq<char>
    decreases parts.len(),
{
    if parts.len() >= 2 && parts.last() == "Ext"@ {
        parts[parts.len() - 2]
    } else if parts.len() >= 2 {
        template_name(parts.drop_last(), display)
    } else {
        display
    }
}

pub fn skd_info_template_name(parts: &[Vec<char>], display: &[char]) -> (r: Vec<char>)
    ensures
        r@ == template_name(views(parts@), display@),
{
    let ghost ps = views(parts@);
    let mut n = parts.len();
    assert(ps.take(n as int) =~= ps);
    while n >= 2
        invariant
            n <= parts@.len(),
            ps == views(parts@),
            template_name(ps, display@) == template_name(ps.take(n as int), display@),
        decreases n,
    {
        proof {
            assert(ps.take(n as int).last() == parts@[n - 1]@);
            assert(ps.take(n as int).drop_last() =~= ps.take(n - 1));
        }
        if crate::text::eq_str(&parts[n - 1], "Ext") {
            return crate::text::to_vec(&parts[n - 2]);
        }
        n = n - 1;
    }
    crate::text::to_vec(display)
}

/// Russian letters the platform allows in names: `А`–`Я`, `а`–`я`, `Ё`, `ё`.
pub open spec fn is_cyrillic(c: char) -> bool {
    ('А' <= c <= 'Я') || ('а' <= c <= 'я') || c == 'Ё' || c == 'ё'
}

pub open spec fn is_ascii_digit(c: char) -> bool {
    '0' <= c <= '9'
}

/// A design-time value reference looks like `Kind.Name`: a kind of ASCII or
/// Russian letters, then a name starting with a letter, digit or `_`.
pub open spec fn design_time_value_ref_shape(value: Seq<char>) -> bool {
    match split_once(value, "."@) {
        None => false,
        Some((prefix, rest)) => prefix.len() > 0 && (forall|i: int| 0 <= i < prefix.len() ==> crate::text::is_ascii_alpha(#[trigger] prefix[i]) || is_cyrillic(prefix[i]))
            && rest.len() > 0 && (crate::text::is_ascii_alpha(rest[0]) || is_ascii_digit(rest[0]) || rest[0] == '_' || is_cyrillic(rest[0])),
    }
}

fn is_cyrillic_exec(c: char) -> (b: bool)
    ensures
        b == is_cyrillic(c),
{
    ('А' <= c && c <= 'Я') || ('а' <= c && c <= 'я') || c == 'Ё' || c == 'ё'
}

fn is_ascii_alpha_exec(c: char) -> (b: bool)
    ensures
        b == crate::text::is_ascii_alpha(c),
{
    ('a' <= c && c <= 'z') || ('A' <= c && c <= 'Z')
}

pub fn skd_validate_design_time_value_ref_shape(value: &[char]) -> (b: bool)
    ensures
        b == design_time_value_ref_shape(value@),
{
    match crate::text::split_once_str(value, ".") {
        None => false,
        Some((prefix, rest)) => {
            if prefix.len() == 0 {
                return false;
            }
            let mut i: usize = 0;
            while i < prefix.len()
                invariant
                    i <= prefix@.len(),
                    split_once(value@, "."@) == Some((prefix@, rest@)),
                    forall|k: int| 0 <= k < i ==> crate::text::is_ascii_alpha(#[trigger] prefix@[k]) || is_cyrillic(prefix@[k]),
                decreases prefix.len() - i,
            {
                if !(is_ascii_alpha_exec(prefix[i]) || is_cyrillic_exec(prefix[i])) {
                    return false;
                }
                i = i + 1;
            }
            if rest.len() == 0 {
                return false;
            }
            let c = rest[0];
            is_ascii_alpha_exec(c) || ('0' <= c && c <= '9') || c == '_' || is_cyrillic_exec(c)
        },
    }
}

/// A configuration reference type looks like `Kind.Name` with an ASCII-letter
/// kind and a non-empty name.
pub open spec fn config_ref_type_shape(local_type: Seq<char>) -> bool {
    match split_once(local_type, "."@) {
        None => false,
        Some((kind, name)) => kind.len() > 0 && name.len() > 0 && (forall|i: int| 0 <= i < kind.len() ==> crate::text::is_ascii_alpha(#[trigger] kind[i])),
    }
}

pub fn skd_validate_config_ref_type_shape(local_type: &[char]) -> (b: bool)
    ensures
        b == config_ref_type_shape(local_type@),
{
    match crate::text::split_once_str(local_type, ".") {
        None => false,
        Some((kind, name)) => {
            if kind.len() == 0 || name.len() == 0 {
                return false;
            }
            let mut i: usize = 0;
            while i < kind.len()
                invariant
                    i <= kind@.len(),
                    kind@.len() > 0 && name@.len() > 0,
                    split_once(local_type@, "."@) == Some((kind@, name@)),
                    forall|k: int| 0 <= k < i ==> crate::text::is_ascii_alpha(#[trigger] kind@[k]),
                decreases kind.len() - i,
            {
                if !is_ascii_alpha_exec(kind[i]) {
                    return false;
                }
                i = i + 1;
            }
            true
        },
    }
}

/// A system type name: an ASCII letter, then ASCII letters and digits.
pub open spec fn system_type_shape(local_type: Seq<char>) -> bool {
    local_type.len() > 0 && crate::text::is_ascii_alpha(local_type[0]) && (forall|i: int|
        1 <= i < local_type.len() ==> crate::text::is_ascii_alpha(#[trigger] local_type[i]) || is_ascii_digit(local_type[i]))
}

pub fn skd_validate_system_type_shape(local_type: &[char]) -> (b: bool)
    ensures
        b == system_type_shape(local_type@),
{
    if local_type.len() == 0 || !is_ascii_alpha_exec(local_type[0]) {
        return false;
    }
    let mut i: usize = 1;
    while i < local_type.len()
        invariant
            1 <= i <= local_type@.len(),
            forall|k: int| 1 <= k < i ==> crate::text::is_ascii_alpha(#[trigger] local_type@[k]) || is_ascii_digit(local_type@[k]),
        decreases local_type.len() - i,
    {
        let c = local_type[i];
        if !(is_ascii_alpha_exec(c) || ('0' <= c && c <= '9')) {
            return false;
        }
        i = i + 1;
    }
    true
}

} // verus!
