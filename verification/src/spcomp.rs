//! Reading the diagnostics that the `spcomp` compiler prints, and building
//! its command line.
use vstd::prelude::*;
use crate::pattern::{opt_string_view, parse_u32, parse_u32_spec, regex_capture, regex_group};
use crate::text::{push_str, strings_view};

verus! {

/// Severity levels of spcomp errors.
#[derive(Debug, Clone, Copy, PartialEq, Eq, Structural)]
pub enum SpCompSeverity {
    Warning,
    Error,
    FatalError,
}

/// A line of spcomp output that reports a diagnostic: the path of the file,
/// the line number, the severity, the code and the message.
pub const SPCOMP_LINE_RE: &'static str = r"([:/\\A-Za-z\-_0-9. ]*)\((\d+)+\) : (?:(error|fatal error|warning) ([0-9]*)):\s+(.*)";

/// The severity that spcomp writes as `s`.
pub open spec fn spec_severity(s: Seq<char>) -> Option<SpCompSeverity> {
    if s == "warning"@ {
        Some(SpCompSeverity::Warning)
    } else if s == "error"@ {
        Some(SpCompSeverity::Error)
    } else if s == "fatal error"@ {
        Some(SpCompSeverity::FatalError)
    } else {
        None
    }
}

/// Reads the severity that spcomp writes as `s`.
fn severity_from_str(s: &str) -> (res: Option<SpCompSeverity>)
    ensures
        res == spec_severity(s@),
{
    if crate::base_db::str_eq(s, "warning") {
        Some(SpCompSeverity::Warning)
    } else if crate::base_db::str_eq(s, "error") {
        Some(SpCompSeverity::Error)
    } else if crate::base_db::str_eq(s, "fatal error") {
        Some(SpCompSeverity::FatalError)
    } else {
        None
    }
}

/// Representation of an spcomp error.
#[derive(Debug, Clone)]
pub struct SpCompDiagnostic {
    /// Path of the document where the error comes from.
    path: String,
    /// Line index of the error.
    line_index: u32,
    /// Severity of the error.
    severity: SpCompSeverity,
    /// Code of the error.
    code: String,
    /// Message of the error.
    message: String,
}

/// The fields of a diagnostic as plain values: path, line index, severity,
/// code and message.
pub type SpCompDiagnosticView = (Seq<char>, u32, SpCompSeverity, Seq<char>, Seq<char>);

impl View for SpCompDiagnostic {
    type V = SpCompDiagnosticView;

    closed spec fn view(&self) -> SpCompDiagnosticView {
        (self.path@, self.line_index, self.severity, self.code@, self.message@)
    }
}

/// The zero-based index of the one-based line number `n`; spcomp never reports
/// line 0, which wraps around as unsigned arithmetic does.
pub open spec fn line_index_of(n: u32) -> u32 {
    if n == 0 {
        u32::MAX
    } else {
        (n - 1) as u32
    }
}

/// The diagnostic that the capture groups `g1` to `g5` of an spcomp line
/// describe, when the path is absolute (`path_ok`), the line number parses
/// and the severity is known.
pub open spec fn spec_diagnostic_from_groups(
    path_ok: bool,
    g1: Option<Seq<char>>,
    g2: Option<Seq<char>>,
    g3: Option<Seq<char>>,
    g4: Option<Seq<char>>,
    g5: Option<Seq<char>>,
) -> Option<SpCompDiagnosticView> {
    match (g1, g2, g3, g4, g5) {
        (Some(path), Some(line), Some(sev), Some(code), Some(message)) => {
            if path_ok && parse_u32_spec(line) is Some && spec_severity(sev) is Some {
                Some(
                    (
                        path,
                        line_index_of(parse_u32_spec(line).unwrap()),
                        spec_severity(sev).unwrap(),
                        code,
                        message,
                    ),
                )
            } else {
                None
            }
        },
        _ => None,
    }
}

/// Capture group `k` of the spcomp line pattern on `line`.
pub open spec fn line_group(line: Seq<char>, k: usize) -> Option<Seq<char>> {
    regex_group(SPCOMP_LINE_RE@, line, k)
}

/// The diagnostic that the spcomp output line `line` reports, given whether
/// its path is absolute.
pub open spec fn spec_try_from_line(line: Seq<char>, path_ok: bool) -> Option<SpCompDiagnosticView> {
    spec_diagnostic_from_groups(
        path_ok,
        line_group(line, 1),
        line_group(line, 2),
        line_group(line, 3),
        line_group(line, 4),
        line_group(line, 5),
    )
}

/// Whether `path` is an absolute path on this machine, as
/// `std::path::Path::is_absolute` decides. What it returns depends on the
/// platform's path syntax, so nothing is stated of it.
#[verifier::external_body]
fn path_is_absolute(path: &str) -> bool {
    std::path::Path::new(path).is_absolute()
}

pub open spec fn opt_view(d: Option<SpCompDiagnostic>) -> Option<SpCompDiagnosticView> {
    match d {
        Some(d) => Some(d@),
        None => None,
    }
}

impl SpCompDiagnostic {
    pub fn path(&self) -> (res: &str)
        ensures
            res@ == self@.0,
    {
        self.path.as_str()
    }

    pub fn line_index(&self) -> (res: u32)
        ensures
            res == self@.1,
    {
        self.line_index
    }

    pub fn severity(&self) -> (res: &SpCompSeverity)
        ensures
            *res == self@.2,
    {
        &self.severity
    }

    pub fn code(&self) -> (res: &str)
        ensures
            res@ == self@.3,
    {
        self.code.as_str()
    }

    pub fn message(&self) -> (res: &str)
        ensures
            res@ == self@.4,
    {
        self.message.as_str()
    }

    /// Builds the diagnostic from the capture groups of an spcomp line and
    /// whether its path is absolute.
    pub fn from_groups(
        path_ok: bool,
        g1: Option<String>,
        g2: Option<String>,
        g3: Option<String>,
        g4: Option<String>,
        g5: Option<String>,
    ) -> (res: Option<Self>)
        ensures
            opt_view(res) == spec_diagnostic_from_groups(
                path_ok,
                opt_string_view(g1),
                opt_string_view(g2),
                opt_string_view(g3),
                opt_string_view(g4),
                opt_string_view(g5),
            ),
    {
        let path = g1?;
        let line = g2?;
        let sev = g3?;
        let code = g4?;
        let message = g5?;
        if !path_ok {
            return None;
        }
        let n = parse_u32(line.as_str())?;
        let severity = severity_from_str(sev.as_str())?;
        let line_index = if n == 0 {
            u32::MAX
        } else {
            n - 1
        };
        Some(SpCompDiagnostic { path, line_index, severity, code, message })
    }

    /// Reads a diagnostic from a line of spcomp output. `None` when the line
    /// reports none; a line whose path is not absolute on this machine reports
    /// none either.
    pub fn try_from_line(line: &str) -> (res: Option<Self>)
        ensures
            spec_try_from_line(line@, true) is None ==> res is None,
            res is Some ==> opt_view(res) == spec_try_from_line(line@, true),
    {
        let g1 = regex_capture(SPCOMP_LINE_RE, line, 1);
        let path_ok = match &g1 {
            Some(p) => path_is_absolute(p.as_str()),
            None => false,
        };
        let g2 = regex_capture(SPCOMP_LINE_RE, line, 2);
        let g3 = regex_capture(SPCOMP_LINE_RE, line, 3);
        let g4 = regex_capture(SPCOMP_LINE_RE, line, 4);
        let g5 = regex_capture(SPCOMP_LINE_RE, line, 5);
        Self::from_groups(path_ok, g1, g2, g3, g4, g5)
    }
}

/// `prefix` followed by `s`.
fn prefixed(prefix: &str, s: &str) -> (res: String)
    ensures
        res@ == prefix@ + s@,
{
    let mut res = prefix.to_owned();
    push_str(&mut res, s);
    res
}

/// The arguments to run spcomp on `root_path`, as plain values.
pub open spec fn spec_build_args(
    root_path: Seq<char>,
    root_dirs: Option<(Seq<char>, Option<Seq<char>>)>,
    out_path: Seq<char>,
    includes_directories: Seq<Seq<char>>,
    linter_arguments: Seq<Seq<char>>,
) -> Seq<Seq<char>> {
    let parent_args = match root_dirs {
        None => seq![],
        Some((parent, None)) => seq!["-i"@ + parent],
        Some((parent, Some(include_dir))) => seq!["-i"@ + parent, "-i"@ + include_dir],
    };
    seq![root_path]
        + includes_directories.map_values(|d: Seq<char>| "-i"@ + d)
        + parent_args
        + seq!["-o"@ + out_path, "--syntax-only"@]
        + linter_arguments
}

/// Return the arguments to run spcomp on `root_path`, writing to `out_path`.
/// `root_dirs` holds the directory of `root_path`, if it has one, with the
/// `include` folder inside it when that folder exists.
pub fn build_args(
    root_path: &str,
    root_dirs: Option<(String, Option<String>)>,
    out_path: &str,
    includes_directories: &Vec<String>,
    linter_arguments: &Vec<String>,
) -> (res: Vec<String>)
    ensures
        strings_view(res@) == spec_build_args(
            root_path@,
            match root_dirs {
                None => None,
                Some((p, i)) => Some((p@, opt_string_view(i))),
            },
            out_path@,
            strings_view(includes_directories@),
            strings_view(linter_arguments@),
        ),
{
    let mut args: Vec<String> = Vec::new();
    args.push(root_path.to_owned());
    let mut i: usize = 0;
    while i < includes_directories.len()
        invariant
            0 <= i <= includes_directories.len(),
            strings_view(args@) == seq![root_path@] + strings_view(includes_directories@).take(i as int).map_values(
                |d: Seq<char>| "-i"@ + d,
            ),
        decreases includes_directories.len() - i,
    {
        let arg = prefixed("-i", includes_directories[i].as_str());
        let ghost old_args = args@;
        args.push(arg);
        proof {
            let dirs = strings_view(includes_directories@);
            assert(dirs.take(i + 1) == dirs.take(i as int).push(dirs[i as int]));
            assert(strings_view(args@) =~= strings_view(old_args).push(arg@));
            assert(dirs.take(i + 1).map_values(|d: Seq<char>| "-i"@ + d) =~= dirs.take(i as int).map_values(
                |d: Seq<char>| "-i"@ + d,
            ).push("-i"@ + dirs[i as int]));
        }
        i = i + 1;
    }
    proof {
        let dirs = strings_view(includes_directories@);
        assert(dirs.take(dirs.len() as int) == dirs);
    }
    let ghost after_dirs = strings_view(args@);
    match root_dirs {
        Some((parent, include_dir)) => {
            args.push(prefixed("-i", parent.as_str()));
            match include_dir {
                Some(d) => {
                    args.push(prefixed("-i", d.as_str()));
                },
                None => {},
            }
        },
        None => {},
    }
    let ghost after_parent = strings_view(args@);
    args.push(prefixed("-o", out_path));
    args.push("--syntax-only".to_owned());
    let ghost before_linter = args@;
    let mut j: usize = 0;
    while j < linter_arguments.len()
        invariant
            0 <= j <= linter_arguments.len(),
            strings_view(args@) == strings_view(before_linter) + strings_view(linter_arguments@).take(j as int),
        decreases linter_arguments.len() - j,
    {
        let ghost old_args = args@;
        args.push(linter_arguments[j].clone());
        proof {
            let la = strings_view(linter_arguments@);
            assert(la.take(j + 1) == la.take(j as int).push(la[j as int]));
            assert(strings_view(args@) =~= strings_view(old_args).push(la[j as int]));
        }
        j = j + 1;
    }
    proof {
        let la = strings_view(linter_arguments@);
        assert(la.take(la.len() as int) == la);
    }
    args
}

} // verus!
