//! Reading the command line into `Arguments`.
use vstd::prelude::*;

use crate::arguments::{Arguments, ArgumentsView};
use crate::flag_value::{FlagValue, FlagValueView};
use crate::input_source::{InputSource, InputSourceView};
use crate::text::{chars_of, parse_u16, parse_u16_spec, split_on_bar, split_terms, string_from_chars, trim, trim_chars};

verus! {

/// Why the command line was refused.
#[derive(Debug, Clone, Copy, PartialEq, Eq)]
pub enum ArgError {
    FilePathRequired,
    MissingFilePath,
    AndTermsRequired,
    MissingAndTerms,
    OrTermsRequired,
    MissingOrTerms,
    ExcludeTermsRequired,
    MissingExcludeTerms,
    AfterLinesRequired,
    InvalidAfterLines,
    BeforeLinesRequired,
    InvalidBeforeLines,
    FileTypesRequired,
    MissingFileTypes,
    MissingSearchTerms,
}

/// The message shown for each refusal.
pub open spec fn message_text(e: ArgError) -> Seq<char> {
    match e {
        ArgError::FilePathRequired => "File path required after -f flag."@,
        ArgError::MissingFilePath => "Missing file path after -f flag."@,
        ArgError::AndTermsRequired => "Arguments for search required after -eq"@,
        ArgError::MissingAndTerms => "Missing search terms after -eq."@,
        ArgError::OrTermsRequired => "Arguments for search required after -c"@,
        ArgError::MissingOrTerms => "Missing search terms after -c."@,
        ArgError::ExcludeTermsRequired => "Arguments for exclusion required after -ne"@,
        ArgError::MissingExcludeTerms => "Missing exclude terms after -ne."@,
        ArgError::AfterLinesRequired => "An amount of lines after the match needed for -a"@,
        ArgError::InvalidAfterLines => "A positive number is needed for lines after."@,
        ArgError::BeforeLinesRequired => "An amount of lines before the match needed for -b"@,
        ArgError::InvalidBeforeLines => "A positive number is needed for lines before."@,
        ArgError::FileTypesRequired => "File types required for -t."@,
        ArgError::MissingFileTypes => "Missing file types after -t."@,
        ArgError::MissingSearchTerms => "At least one of the search arguments required: -eq, -ne or -c"@,
    }
}

impl ArgError {
    /// The message to show.
    pub fn message(&self) -> (r: String)
        ensures
            r@ == message_text(*self),
    {
        match self {
            ArgError::FilePathRequired => "File path required after -f flag.".to_owned(),
            ArgError::MissingFilePath => "Missing file path after -f flag.".to_owned(),
            ArgError::AndTermsRequired => "Arguments for search required after -eq".to_owned(),
            ArgError::MissingAndTerms => "Missing search terms after -eq.".to_owned(),
            ArgError::OrTermsRequired => "Arguments for search required after -c".to_owned(),
            ArgError::MissingOrTerms => "Missing search terms after -c.".to_owned(),
            ArgError::ExcludeTermsRequired => "Arguments for exclusion required after -ne".to_owned(),
            ArgError::MissingExcludeTerms => "Missing exclude terms after -ne.".to_owned(),
            ArgError::AfterLinesRequired => "An amount of lines after the match needed for -a".to_owned(),
            ArgError::InvalidAfterLines => "A positive number is needed for lines after.".to_owned(),
            ArgError::BeforeLinesRequired => "An amount of lines before the match needed for -b".to_owned(),
            ArgError::InvalidBeforeLines => "A positive number is needed for lines before.".to_owned(),
            ArgError::FileTypesRequired => "File types required for -t.".to_owned(),
            ArgError::MissingFileTypes => "Missing file types after -t.".to_owned(),
            ArgError::MissingSearchTerms => "At least one of the search arguments required: -eq, -ne or -c".to_owned(),
        }
    }

    /// Whether the message goes to standard output rather than standard
    /// error (the two `-eq` refusals do).
    pub fn to_standard_output(&self) -> (r: bool)
        ensures
            r == (*self == ArgError::AndTermsRequired || *self == ArgError::MissingAndTerms),
    {
        match self {
            ArgError::AndTermsRequired | ArgError::MissingAndTerms => true,
            _ => false,
        }
    }
}

/// The value recorded under each flag so far; a flag given again replaces
/// its value.
pub struct FlagTable {
    pub path: Option<FlagValue>,
    pub and_terms: Option<FlagValue>,
    pub or_terms: Option<FlagValue>,
    pub ex_terms: Option<FlagValue>,
    pub case_insensitive: Option<FlagValue>,
    pub after: Option<FlagValue>,
    pub before: Option<FlagValue>,
    pub numerate: Option<FlagValue>,
    pub file_types: Option<FlagValue>,
}

/// `FlagTable` with its text as character sequences.
pub struct FlagTableView {
    pub path: Option<FlagValueView>,
    pub and_terms: Option<FlagValueView>,
    pub or_terms: Option<FlagValueView>,
    pub ex_terms: Option<FlagValueView>,
    pub case_insensitive: Option<FlagValueView>,
    pub after: Option<FlagValueView>,
    pub before: Option<FlagValueView>,
    pub numerate: Option<FlagValueView>,
    pub file_types: Option<FlagValueView>,
}

/// A flag's value, if recorded, as its view.
pub open spec fn flag_view(v: Option<FlagValue>) -> Option<FlagValueView> {
    match v {
        Some(x) => Some(x@),
        None => None,
    }
}

impl View for FlagTable {
    type V = FlagTableView;

    open spec fn view(&self) -> FlagTableView {
        FlagTableView {
            path: flag_view(self.path),
            and_terms: flag_view(self.and_terms),
            or_terms: flag_view(self.or_terms),
            ex_terms: flag_view(self.ex_terms),
            case_insensitive: flag_view(self.case_insensitive),
            after: flag_view(self.after),
            before: flag_view(self.before),
            numerate: flag_view(self.numerate),
            file_types: flag_view(self.file_types),
        }
    }
}

/// No flag recorded.
pub open spec fn empty_table() -> FlagTableView {
    FlagTableView {
        path: None,
        and_terms: None,
        or_terms: None,
        ex_terms: None,
        case_insensitive: None,
        after: None,
        before: None,
        numerate: None,
        file_types: None,
    }
}

/// Where reading the command line stops.
pub enum ScanOutcome {
    /// Every word was read; these flags were recorded.
    Finished(FlagTableView),
    /// Help was asked for.
    Help,
    /// A flag lacked a proper value.
    Failed(ArgError),
}

/// The word begins with `-`.
pub open spec fn starts_with_dash(s: Seq<char>) -> bool {
    s.len() > 0 && s[0] == '-'
}

/// The `|`-separated list that follows a flag (`rest` holds the words after
/// it): refused when there is none, or when it begins with `-`.
pub open spec fn list_value(rest: Seq<Seq<char>>, required: ArgError, missing: ArgError) -> Result<Seq<Seq<char>>, ArgError> {
    if rest.len() == 0 {
        Err(required)
    } else if starts_with_dash(rest[0]) {
        Err(missing)
    } else {
        Ok(split_terms(rest[0]))
    }
}

/// The line count that follows a flag: refused when there is none, or when
/// it is not a 16-bit unsigned number.
pub open spec fn count_value(rest: Seq<Seq<char>>, required: ArgError, invalid: ArgError) -> Result<u16, ArgError> {
    if rest.len() == 0 {
        Err(required)
    } else {
        match parse_u16_spec(rest[0]) {
            Some(v) => Ok(v),
            None => Err(invalid),
        }
    }
}

/// Reads the words `args` from left to right, recording flags in `t`. A flag
/// that takes a value consumes the next word. The first refusal, or a request
/// for help, ends the reading; words that are no flag are passed over.
pub open spec fn scan_flags(args: Seq<Seq<char>>, t: FlagTableView) -> ScanOutcome
    decreases args.len(),
{
    if args.len() == 0 {
        ScanOutcome::Finished(t)
    } else {
        let arg = args[0];
        let rest = args.drop_first();
        if arg == "-f"@ {
            if rest.len() == 0 {
                ScanOutcome::Failed(ArgError::FilePathRequired)
            } else if starts_with_dash(rest[0]) {
                ScanOutcome::Failed(ArgError::MissingFilePath)
            } else {
                scan_flags(rest.drop_first(), FlagTableView { path: Some(FlagValueView::Path(trim(rest[0]))), ..t })
            }
        } else if arg == "-eq"@ {
            match list_value(rest, ArgError::AndTermsRequired, ArgError::MissingAndTerms) {
                Ok(ts) => scan_flags(rest.drop_first(), FlagTableView { and_terms: Some(FlagValueView::SearchTerms(ts)), ..t }),
                Err(e) => ScanOutcome::Failed(e),
            }
        } else if arg == "-c"@ {
            match list_value(rest, ArgError::OrTermsRequired, ArgError::MissingOrTerms) {
                Ok(ts) => scan_flags(rest.drop_first(), FlagTableView { or_terms: Some(FlagValueView::SearchTerms(ts)), ..t }),
                Err(e) => ScanOutcome::Failed(e),
            }
        } else if arg == "-ne"@ {
            match list_value(rest, ArgError::ExcludeTermsRequired, ArgError::MissingExcludeTerms) {
                Ok(ts) => scan_flags(rest.drop_first(), FlagTableView { ex_terms: Some(FlagValueView::SearchTerms(ts)), ..t }),
                Err(e) => ScanOutcome::Failed(e),
            }
        } else if arg == "-i"@ {
            scan_flags(rest, FlagTableView { case_insensitive: Some(FlagValueView::EnableDisable(true)), ..t })
        } else if arg == "-a"@ {
            match count_value(rest, ArgError::AfterLinesRequired, ArgError::InvalidAfterLines) {
                Ok(v) => scan_flags(rest.drop_first(), FlagTableView { after: Some(FlagValueView::ExtraLines(v)), ..t }),
                Err(e) => ScanOutcome::Failed(e),
            }
        } else if arg == "-b"@ {
            match count_value(rest, ArgError::BeforeLinesRequired, ArgError::InvalidBeforeLines) {
                Ok(v) => scan_flags(rest.drop_first(), FlagTableView { before: Some(FlagValueView::ExtraLines(v)), ..t }),
                Err(e) => ScanOutcome::Failed(e),
            }
        } else if arg == "-n"@ {
            scan_flags(rest, FlagTableView { numerate: Some(FlagValueView::EnableDisable(true)), ..t })
        } else if arg == "-t"@ {
            match list_value(rest, ArgError::FileTypesRequired, ArgError::MissingFileTypes) {
                Ok(ts) => scan_flags(rest.drop_first(), FlagTableView { file_types: Some(FlagValueView::SearchTerms(ts)), ..t }),
                Err(e) => ScanOutcome::Failed(e),
            }
        } else if arg == "-h"@ || arg == "--help"@ {
            ScanOutcome::Help
        } else {
            scan_flags(rest, t)
        }
    }
}


/// What a recorded list of terms gives: the list, if the flag holds one.
pub open spec fn recorded_terms(v: Option<FlagValueView>) -> Option<Seq<Seq<char>>> {
    match v {
        Some(FlagValueView::SearchTerms(ts)) => Some(ts),
        _ => None,
    }
}

/// What a recorded switch gives; off when absent.
pub open spec fn recorded_switch(v: Option<FlagValueView>) -> bool {
    match v {
        Some(FlagValueView::EnableDisable(b)) => b,
        _ => false,
    }
}

/// What a recorded line count gives; zero when absent.
pub open spec fn recorded_count(v: Option<FlagValueView>) -> u16 {
    match v {
        Some(FlagValueView::ExtraLines(n)) => n,
        _ => 0,
    }
}

/// The settings the recorded flags give: the `-f` path if given; otherwise
/// standard input when it is not a terminal, else the current directory.
pub open spec fn arguments_from(t: FlagTableView, current_dir: Seq<char>, stdin_is_terminal: bool) -> ArgumentsView {
    ArgumentsView {
        path: match t.path {
            Some(FlagValueView::Path(p)) => InputSourceView::Normal(p),
            Some(_) => InputSourceView::Normal(current_dir),
            None => if stdin_is_terminal {
                InputSourceView::Normal(current_dir)
            } else {
                InputSourceView::Stdin
            },
        },
        or_search_terms: recorded_terms(t.or_terms),
        and_search_terms: recorded_terms(t.and_terms),
        ex_search_terms: recorded_terms(t.ex_terms),
        case_insensitive: recorded_switch(t.case_insensitive),
        before_lines: recorded_count(t.before),
        after_lines: recorded_count(t.after),
        numerate_lines: recorded_switch(t.numerate),
        file_types: recorded_terms(t.file_types),
    }
}

/// What parsing the command line gives: the settings to run with
/// (`Some`), a request for help (`None`), or a refusal. Without any of
/// `-eq`, `-c` and `-ne` the command line is refused.
pub open spec fn parse_spec(args: Seq<Seq<char>>, current_dir: Seq<char>, stdin_is_terminal: bool) -> Result<Option<ArgumentsView>, ArgError> {
    match scan_flags(args, empty_table()) {
        ScanOutcome::Help => Ok(None),
        ScanOutcome::Failed(e) => Err(e),
        ScanOutcome::Finished(t) => if t.and_terms is None && t.or_terms is None && t.ex_terms is None {
            Err(ArgError::MissingSearchTerms)
        } else {
            Ok(Some(arguments_from(t, current_dir, stdin_is_terminal)))
        },
    }
}

/// What to do after reading the command line.
pub enum ParseOutcome {
    /// Search with these settings.
    Run(Arguments),
    /// Show the help text.
    Help,
}

/// A parse result with the settings as their view.
pub open spec fn outcome_view(r: Result<ParseOutcome, ArgError>) -> Result<Option<ArgumentsView>, ArgError> {
    match r {
        Ok(ParseOutcome::Run(a)) => Ok(Some(a@)),
        Ok(ParseOutcome::Help) => Ok(None),
        Err(e) => Err(e),
    }
}

/// A list result with the list as its view.
pub open spec fn list_result_view(r: Result<Vec<String>, ArgError>) -> Result<Seq<Seq<char>>, ArgError> {
    match r {
        Ok(v) => Ok(v.deep_view()),
        Err(e) => Err(e),
    }
}

/// Whether `a` spells `lit`.
fn token_is(a: &Vec<char>, lit: &str) -> (r: bool)
    ensures
        r == (a@ == lit@),
{
    let l = chars_of(lit);
    if a.len() != l.len() {
        return false;
    }
    let n = a.len();
    let mut i: usize = 0;
    while i < n
        invariant
            n == a@.len(),
            n == l@.len(),
            l@ == lit@,
            i <= n,
            forall|j: int| 0 <= j < i ==> a@[j] == l@[j],
        decreases n - i,
    {
        if a[i] != l[i] {
            assert(a@[i as int] != l@[i as int]);
            return false;
        }
        i = i + 1;
    }
    assert(a@ =~= l@);
    true
}

fn starts_with_dash_exec(v: &Vec<char>) -> (r: bool)
    ensures
        r == starts_with_dash(v@),
{
    v.len() > 0 && v[0] == '-'
}

/// The list that follows the flag at `i`.
fn list_after(args: &Vec<String>, i: usize, required: ArgError, missing: ArgError) -> (r: Result<Vec<String>, ArgError>)
    requires
        i < args@.len(),
    ensures
        list_result_view(r) == list_value(args.deep_view().skip(i + 1), required, missing),
{
    let ghost rest = args.deep_view().skip(i + 1);
    if args.len() - i < 2 {
        return Err(required);
    }
    assert(rest[0] == args@[i + 1]@);
    let value = chars_of(args[i + 1].as_str());
    if starts_with_dash_exec(&value) {
        return Err(missing);
    }
    Ok(split_on_bar(&value))
}

/// The line count that follows the flag at `i`.
fn count_after(args: &Vec<String>, i: usize, required: ArgError, invalid: ArgError) -> (r: Result<u16, ArgError>)
    requires
        i < args@.len(),
    ensures
        r == count_value(args.deep_view().skip(i + 1), required, invalid),
{
    let ghost rest = args.deep_view().skip(i + 1);
    if args.len() - i < 2 {
        return Err(required);
    }
    assert(rest[0] == args@[i + 1]@);
    let value = chars_of(args[i + 1].as_str());
    match parse_u16(&value) {
        Some(v) => Ok(v),
        None => Err(invalid),
    }
}

/// How reading the command line ended, with the recorded flags as their view.
pub open spec fn scan_result_view(r: Result<Option<FlagTable>, ArgError>) -> ScanOutcome {
    match r {
        Ok(Some(t)) => ScanOutcome::Finished(t@),
        Ok(None) => ScanOutcome::Help,
        Err(e) => ScanOutcome::Failed(e),
    }
}

/// Reads the words of the command line, recording flags, as `scan_flags` says.
#[verifier::rlimit(40)]
fn scan_args(args: &Vec<String>) -> (r: Result<Option<FlagTable>, ArgError>)
    ensures
        scan_result_view(r) == scan_flags(args.deep_view(), empty_table()),
{
    let ghost all = args.deep_view();
    let n = args.len();
    let mut table = FlagTable {
        path: None,
        and_terms: None,
        or_terms: None,
        ex_terms: None,
        case_insensitive: None,
        after: None,
        before: None,
        numerate: None,
        file_types: None,
    };
    let mut i: usize = 0;
    assert(all.skip(0) =~= all);
    while i < n
        invariant
            n == all.len(),
            all == args.deep_view(),
            i <= n,
            scan_flags(all.skip(i as int), table@) == scan_flags(all, empty_table()),
        decreases n - i,
    {
        let ghost here = all.skip(i as int);
        assert(here[0] == args@[i as int]@);
        assert(here.drop_first() =~= all.skip(i + 1));
        assert(i + 1 < n ==> here.drop_first().drop_first() =~= all.skip(i + 2));
        let arg = chars_of(args[i].as_str());
        if token_is(&arg, "-f") {
            if i + 1 >= n {
                return Err(ArgError::FilePathRequired);
            }
            assert(here.drop_first()[0] == args@[i + 1]@);
            let value = chars_of(args[i + 1].as_str());
            if starts_with_dash_exec(&value) {
                return Err(ArgError::MissingFilePath);
            }
            let path = string_from_chars(&trim_chars(&value));
            table.path = Some(FlagValue::Path(path));
            i = i + 2;
        } else if token_is(&arg, "-eq") {
            let ts = list_after(args, i, ArgError::AndTermsRequired, ArgError::MissingAndTerms)?;
            table.and_terms = Some(FlagValue::SearchTerms(ts));
            i = i + 2;
        } else if token_is(&arg, "-c") {
            let ts = list_after(args, i, ArgError::OrTermsRequired, ArgError::MissingOrTerms)?;
            table.or_terms = Some(FlagValue::SearchTerms(ts));
            i = i + 2;
        } else if token_is(&arg, "-ne") {
            let ts = list_after(args, i, ArgError::ExcludeTermsRequired, ArgError::MissingExcludeTerms)?;
            table.ex_terms = Some(FlagValue::SearchTerms(ts));
            i = i + 2;
        } else if token_is(&arg, "-i") {
            table.case_insensitive = Some(FlagValue::EnableDisable(true));
            i = i + 1;
        } else if token_is(&arg, "-a") {
            let v = count_after(args, i, ArgError::AfterLinesRequired, ArgError::InvalidAfterLines)?;
            table.after = Some(FlagValue::ExtraLines(v));
            i = i + 2;
        } else if token_is(&arg, "-b") {
            let v = count_after(args, i, ArgError::BeforeLinesRequired, ArgError::InvalidBeforeLines)?;
            table.before = Some(FlagValue::ExtraLines(v));
            i = i + 2;
        } else if token_is(&arg, "-n") {
            table.numerate = Some(FlagValue::EnableDisable(true));
            i = i + 1;
        } else if token_is(&arg, "-t") {
            let ts = list_after(args, i, ArgError::FileTypesRequired, ArgError::MissingFileTypes)?;
            table.file_types = Some(FlagValue::SearchTerms(ts));
            i = i + 2;
        } else if token_is(&arg, "-h") || token_is(&arg, "--help") {
            return Ok(None);
        } else {
            i = i + 1;
        }
    }
    assert(all.skip(i as int) =~= Seq::<Seq<char>>::empty());
    Ok(Some(table))
}

/// The settings the recorded flags give (see `arguments_from`).
fn assemble(table: FlagTable, current_dir: String, stdin_is_terminal: bool) -> (r: Arguments)
    ensures
        r@ == arguments_from(table@, current_dir@, stdin_is_terminal),
{
    let mut ret = Arguments::new(current_dir);
    if table.path.is_none() && !stdin_is_terminal {
        ret.path = InputSource::Stdin;
    }
    if let Some(FlagValue::Path(value)) = table.path {
        ret.path = InputSource::Normal(value);
    }
    if let Some(FlagValue::EnableDisable(value)) = table.case_insensitive {
        ret.case_insensitive = value;
    }
    if let Some(FlagValue::SearchTerms(value)) = table.and_terms {
        ret.and_search_terms = Some(value);
    }
    if let Some(FlagValue::SearchTerms(value)) = table.or_terms {
        ret.or_search_terms = Some(value);
    }
    if let Some(FlagValue::SearchTerms(value)) = table.ex_terms {
        ret.ex_search_terms = Some(value);
    }
    if let Some(FlagValue::ExtraLines(value)) = table.after {
        ret.after_lines = value;
    }
    if let Some(FlagValue::ExtraLines(value)) = table.before {
        ret.before_lines = value;
    }
    if let Some(FlagValue::EnableDisable(value)) = table.numerate {
        ret.numerate_lines = value;
    }
    if let Some(FlagValue::SearchTerms(value)) = table.file_types {
        ret.file_types = Some(value);
    }
    ret
}

/// Reads the command line `args` (the program name first, as the operating
/// system hands it over), as `parse_spec` says. `current_dir` is the search
/// path when none is given and input is not piped in; `stdin_is_terminal`
/// tells whether it is.
pub fn parse_arguments(args: Vec<String>, current_dir: String, stdin_is_terminal: bool) -> (r: Result<ParseOutcome, ArgError>)
    ensures
        outcome_view(r) == parse_spec(args.deep_view(), current_dir@, stdin_is_terminal),
{
    match scan_args(&args) {
        Err(e) => Err(e),
        Ok(None) => Ok(ParseOutcome::Help),
        Ok(Some(table)) => {
            if table.and_terms.is_none() && table.or_terms.is_none() && table.ex_terms.is_none() {
                Err(ArgError::MissingSearchTerms)
            } else {
                Ok(ParseOutcome::Run(assemble(table, current_dir, stdin_is_terminal)))
            }
        },
    }
}


/// Each recorded flag holds the kind of value its flag takes.
pub open spec fn well_recorded(t: FlagTableView) -> bool {
    &&& (t.path matches Some(v) ==> v is Path)
    &&& (t.and_terms matches Some(v) ==> v is SearchTerms)
    &&& (t.or_terms matches Some(v) ==> v is SearchTerms)
    &&& (t.ex_terms matches Some(v) ==> v is SearchTerms)
    &&& (t.case_insensitive matches Some(v) ==> v is EnableDisable)
    &&& (t.after matches Some(v) ==> v is ExtraLines)
    &&& (t.before matches Some(v) ==> v is ExtraLines)
    &&& (t.numerate matches Some(v) ==> v is EnableDisable)
    &&& (t.file_types matches Some(v) ==> v is SearchTerms)
}

proof fn lemma_scan_well_recorded(args: Seq<Seq<char>>, t: FlagTableView)
    requires
        well_recorded(t),
    ensures
        scan_flags(args, t) matches ScanOutcome::Finished(f) ==> well_recorded(f),
    decreases args.len(),
{
    if args.len() > 0 {
        let rest = args.drop_first();
        let arg = args[0];
        if arg == "-f"@ {
            if rest.len() > 0 && !starts_with_dash(rest[0]) {
                lemma_scan_well_recorded(rest.drop_first(), FlagTableView { path: Some(FlagValueView::Path(trim(rest[0]))), ..t });
            }
        } else if arg == "-eq"@ {
            if let Ok(ts) = list_value(rest, ArgError::AndTermsRequired, ArgError::MissingAndTerms) {
                lemma_scan_well_recorded(rest.drop_first(), FlagTableView { and_terms: Some(FlagValueView::SearchTerms(ts)), ..t });
            }
        } else if arg == "-c"@ {
            if let Ok(ts) = list_value(rest, ArgError::OrTermsRequired, ArgError::MissingOrTerms) {
                lemma_scan_well_recorded(rest.drop_first(), FlagTableView { or_terms: Some(FlagValueView::SearchTerms(ts)), ..t });
            }
        } else if arg == "-ne"@ {
            if let Ok(ts) = list_value(rest, ArgError::ExcludeTermsRequired, ArgError::MissingExcludeTerms) {
                lemma_scan_well_recorded(rest.drop_first(), FlagTableView { ex_terms: Some(FlagValueView::SearchTerms(ts)), ..t });
            }
        } else if arg == "-i"@ {
            lemma_scan_well_recorded(rest, FlagTableView { case_insensitive: Some(FlagValueView::EnableDisable(true)), ..t });
        } else if arg == "-a"@ {
            if let Ok(v) = count_value(rest, ArgError::AfterLinesRequired, ArgError::InvalidAfterLines) {
                lemma_scan_well_recorded(rest.drop_first(), FlagTableView { after: Some(FlagValueView::ExtraLines(v)), ..t });
            }
        } else if arg == "-b"@ {
            if let Ok(v) = count_value(rest, ArgError::BeforeLinesRequired, ArgError::InvalidBeforeLines) {
                lemma_scan_well_recorded(rest.drop_first(), FlagTableView { before: Some(FlagValueView::ExtraLines(v)), ..t });
            }
        } else if arg == "-n"@ {
            lemma_scan_well_recorded(rest, FlagTableView { numerate: Some(FlagValueView::EnableDisable(true)), ..t });
        } else if arg == "-t"@ {
            if let Ok(ts) = list_value(rest, ArgError::FileTypesRequired, ArgError::MissingFileTypes) {
                lemma_scan_well_recorded(rest.drop_first(), FlagTableView { file_types: Some(FlagValueView::SearchTerms(ts)), ..t });
            }
        } else if arg == "-h"@ || arg == "--help"@ {
        } else {
            lemma_scan_well_recorded(rest, t);
        }
    }
}

/// A search always has something to look for: whenever the command line is
/// accepted for a search, at least one of the "or", "and" and excluded term
/// lists is present.
pub proof fn lemma_run_needs_search_terms(args: Seq<Seq<char>>, current_dir: Seq<char>, stdin_is_terminal: bool)
    ensures
        parse_spec(args, current_dir, stdin_is_terminal) matches Ok(Some(a)) ==> (a.or_search_terms is Some
            || a.and_search_terms is Some || a.ex_search_terms is Some),
{
    lemma_scan_well_recorded(args, empty_table());
}


/// An accepted command line gives the settings of the flags read: every
/// setting comes from its own flag (the last one given) and keeps its
/// default when that flag is absent; one flag never sets another's setting.
/// Reading every word without refusal or help yields a search exactly when
/// at least one of `-eq`, `-c` and `-ne` was given (any one of them alone
/// suffices), and is refused for missing search terms otherwise.
pub proof fn lemma_settings_from_flags(args: Seq<Seq<char>>, current_dir: Seq<char>, stdin_is_terminal: bool)
    ensures
        scan_flags(args, empty_table()) matches ScanOutcome::Finished(t) ==> {
            let r = parse_spec(args, current_dir, stdin_is_terminal);
            &&& (t.and_terms is Some || t.or_terms is Some || t.ex_terms is Some) <==> r is Ok
            &&& (t.and_terms is None && t.or_terms is None && t.ex_terms is None) ==> r
                == Err::<Option<ArgumentsView>, ArgError>(ArgError::MissingSearchTerms)
            &&& r is Ok ==> (r matches Ok(Some(a)) && {
                &&& (t.before is None ==> a.before_lines == 0)
                &&& (t.before matches Some(FlagValueView::ExtraLines(n)) ==> a.before_lines == n)
                &&& (t.after is None ==> a.after_lines == 0)
                &&& (t.after matches Some(FlagValueView::ExtraLines(n)) ==> a.after_lines == n)
                &&& (t.or_terms is None ==> a.or_search_terms is None)
                &&& (t.or_terms matches Some(FlagValueView::SearchTerms(ts)) ==> a.or_search_terms == Some(ts))
                &&& (t.and_terms is None ==> a.and_search_terms is None)
                &&& (t.and_terms matches Some(FlagValueView::SearchTerms(ts)) ==> a.and_search_terms == Some(ts))
                &&& (t.ex_terms is None ==> a.ex_search_terms is None)
                &&& (t.ex_terms matches Some(FlagValueView::SearchTerms(ts)) ==> a.ex_search_terms == Some(ts))
                &&& (t.file_types is None ==> a.file_types is None)
                &&& (t.file_types matches Some(FlagValueView::SearchTerms(ts)) ==> a.file_types == Some(ts))
                &&& (t.case_insensitive is None ==> !a.case_insensitive)
                &&& (t.case_insensitive is Some ==> a.case_insensitive)
                &&& (t.numerate is None ==> !a.numerate_lines)
                &&& (t.numerate is Some ==> a.numerate_lines)
                &&& (t.path matches Some(FlagValueView::Path(p)) ==> a.path == InputSourceView::Normal(p))
                &&& (t.path is None && stdin_is_terminal ==> a.path == InputSourceView::Normal(current_dir))
                &&& (t.path is None && !stdin_is_terminal ==> a.path == InputSourceView::Stdin)
            })
        },
{
    lemma_scan_well_recorded_switches(args, empty_table());
}

/// Each recorded flag holds the kind of value its flag takes, and a recorded
/// switch is on.
pub open spec fn switches_on(t: FlagTableView) -> bool {
    &&& well_recorded(t)
    &&& (t.case_insensitive is Some ==> t.case_insensitive == Some(FlagValueView::EnableDisable(true)))
    &&& (t.numerate is Some ==> t.numerate == Some(FlagValueView::EnableDisable(true)))
}

proof fn lemma_scan_well_recorded_switches(args: Seq<Seq<char>>, t: FlagTableView)
    requires
        switches_on(t),
    ensures
        scan_flags(args, t) matches ScanOutcome::Finished(f) ==> switches_on(f),
    decreases args.len(),
{
    if args.len() > 0 {
        let rest = args.drop_first();
        let arg = args[0];
        if arg == "-f"@ {
            if rest.len() > 0 && !starts_with_dash(rest[0]) {
                lemma_scan_well_recorded_switches(rest.drop_first(), FlagTableView { path: Some(FlagValueView::Path(trim(rest[0]))), ..t });
            }
        } else if arg == "-eq"@ {
            if let Ok(ts) = list_value(rest, ArgError::AndTermsRequired, ArgError::MissingAndTerms) {
                lemma_scan_well_recorded_switches(rest.drop_first(), FlagTableView { and_terms: Some(FlagValueView::SearchTerms(ts)), ..t });
            }
        } else if arg == "-c"@ {
            if let Ok(ts) = list_value(rest, ArgError::OrTermsRequired, ArgError::MissingOrTerms) {
                lemma_scan_well_recorded_switches(rest.drop_first(), FlagTableView { or_terms: Some(FlagValueView::SearchTerms(ts)), ..t });
            }
        } else if arg == "-ne"@ {
            if let Ok(ts) = list_value(rest, ArgError::ExcludeTermsRequired, ArgError::MissingExcludeTerms) {
                lemma_scan_well_recorded_switches(rest.drop_first(), FlagTableView { ex_terms: Some(FlagValueView::SearchTerms(ts)), ..t });
            }
        } else if arg == "-i"@ {
            lemma_scan_well_recorded_switches(rest, FlagTableView { case_insensitive: Some(FlagValueView::EnableDisable(true)), ..t });
        } else if arg == "-a"@ {
            if let Ok(v) = count_value(rest, ArgError::AfterLinesRequired, ArgError::InvalidAfterLines) {
                lemma_scan_well_recorded_switches(rest.drop_first(), FlagTableView { after: Some(FlagValueView::ExtraLines(v)), ..t });
            }
        } else if arg == "-b"@ {
            if let Ok(v) = count_value(rest, ArgError::BeforeLinesRequired, ArgError::InvalidBeforeLines) {
                lemma_scan_well_recorded_switches(rest.drop_first(), FlagTableView { before: Some(FlagValueView::ExtraLines(v)), ..t });
            }
        } else if arg == "-n"@ {
            lemma_scan_well_recorded_switches(rest, FlagTableView { numerate: Some(FlagValueView::EnableDisable(true)), ..t });
        } else if arg == "-t"@ {
            if let Ok(ts) = list_value(rest, ArgError::FileTypesRequired, ArgError::MissingFileTypes) {
                lemma_scan_well_recorded_switches(rest.drop_first(), FlagTableView { file_types: Some(FlagValueView::SearchTerms(ts)), ..t });
            }
        } else if arg == "-h"@ || arg == "--help"@ {
        } else {
            lemma_scan_well_recorded_switches(rest, t);
        }
    }
}

/// The recorded flags of a reading that ended with every word read.
pub open spec fn finished_table(o: ScanOutcome) -> FlagTableView {
    match o {
        ScanOutcome::Finished(t) => t,
        _ => empty_table(),
    }
}

/// `g` is one flag with a proper value, if it takes one: a switch (`-i`,
/// `-n`) alone, or a flag that takes a value followed by a value it accepts.
pub open spec fn flag_group(g: Seq<Seq<char>>) -> bool {
    &&& g.len() >= 1
    &&& {
        let w = g[0];
        if w == "-f"@ || w == "-eq"@ || w == "-c"@ || w == "-ne"@ {
            g.len() == 2 && !starts_with_dash(g[1])
        } else if w == "-i"@ {
            g.len() == 1
        } else if w == "-a"@ || w == "-b"@ {
            g.len() == 2 && parse_u16_spec(g[1]) is Some
        } else if w == "-n"@ {
            g.len() == 1
        } else if w == "-t"@ {
            g.len() == 2 && !starts_with_dash(g[1])
        } else {
            false
        }
    }
}

/// What reading the flag group `g` records in `t`.
pub open spec fn group_update(g: Seq<Seq<char>>, t: FlagTableView) -> FlagTableView {
    let w = g[0];
    if w == "-f"@ {
        FlagTableView { path: Some(FlagValueView::Path(trim(g[1]))), ..t }
    } else if w == "-eq"@ {
        FlagTableView { and_terms: Some(FlagValueView::SearchTerms(split_terms(g[1]))), ..t }
    } else if w == "-c"@ {
        FlagTableView { or_terms: Some(FlagValueView::SearchTerms(split_terms(g[1]))), ..t }
    } else if w == "-ne"@ {
        FlagTableView { ex_terms: Some(FlagValueView::SearchTerms(split_terms(g[1]))), ..t }
    } else if w == "-i"@ {
        FlagTableView { case_insensitive: Some(FlagValueView::EnableDisable(true)), ..t }
    } else if w == "-a"@ {
        FlagTableView { after: Some(FlagValueView::ExtraLines(parse_u16_spec(g[1]).unwrap())), ..t }
    } else if w == "-b"@ {
        FlagTableView { before: Some(FlagValueView::ExtraLines(parse_u16_spec(g[1]).unwrap())), ..t }
    } else if w == "-n"@ {
        FlagTableView { numerate: Some(FlagValueView::EnableDisable(true)), ..t }
    } else {
        FlagTableView { file_types: Some(FlagValueView::SearchTerms(split_terms(g[1]))), ..t }
    }
}

/// A flag group is read completely and records `group_update`.
proof fn lemma_group_read(g: Seq<Seq<char>>, t: FlagTableView)
    requires
        flag_group(g),
    ensures
        scan_flags(g, t) == ScanOutcome::Finished(group_update(g, t)),
{
    reveal_with_fuel(scan_flags, 2);
    let rest = g.drop_first();
    assert(rest.len() > 0 ==> rest[0] == g[1]);
    assert(rest.len() == 0 || rest.drop_first().len() == 0);
    assert(rest.len() > 0 ==> rest.drop_first() =~= Seq::<Seq<char>>::empty());
    assert(rest.len() == 0 ==> rest =~= Seq::<Seq<char>>::empty());
}

/// Reading words that are read completely, then more words, reads the more
/// words from the flags recorded so far.
proof fn lemma_scan_concat(pre: Seq<Seq<char>>, x: Seq<Seq<char>>, t: FlagTableView)
    requires
        scan_flags(pre, t) is Finished,
    ensures
        scan_flags(pre + x, t) == scan_flags(x, finished_table(scan_flags(pre, t))),
    decreases pre.len(),
{
    if pre.len() == 0 {
        assert(pre + x =~= x);
    } else {
        let arg = pre[0];
        let rest = pre.drop_first();
        assert((pre + x)[0] == arg);
        assert((pre + x).drop_first() =~= rest + x);
        if rest.len() > 0 {
            assert((rest + x)[0] == rest[0]);
            assert((rest + x).drop_first() =~= rest.drop_first() + x);
        }
        if arg == "-f"@ {
            if rest.len() > 0 && !starts_with_dash(rest[0]) {
                lemma_scan_concat(rest.drop_first(), x, FlagTableView { path: Some(FlagValueView::Path(trim(rest[0]))), ..t });
            }
        } else if arg == "-eq"@ {
            if let Ok(ts) = list_value(rest, ArgError::AndTermsRequired, ArgError::MissingAndTerms) {
                lemma_scan_concat(rest.drop_first(), x, FlagTableView { and_terms: Some(FlagValueView::SearchTerms(ts)), ..t });
            }
        } else if arg == "-c"@ {
            if let Ok(ts) = list_value(rest, ArgError::OrTermsRequired, ArgError::MissingOrTerms) {
                lemma_scan_concat(rest.drop_first(), x, FlagTableView { or_terms: Some(FlagValueView::SearchTerms(ts)), ..t });
            }
        } else if arg == "-ne"@ {
            if let Ok(ts) = list_value(rest, ArgError::ExcludeTermsRequired, ArgError::MissingExcludeTerms) {
                lemma_scan_concat(rest.drop_first(), x, FlagTableView { ex_terms: Some(FlagValueView::SearchTerms(ts)), ..t });
            }
        } else if arg == "-i"@ {
            lemma_scan_concat(rest, x, FlagTableView { case_insensitive: Some(FlagValueView::EnableDisable(true)), ..t });
        } else if arg == "-a"@ {
            if let Ok(v) = count_value(rest, ArgError::AfterLinesRequired, ArgError::InvalidAfterLines) {
                lemma_scan_concat(rest.drop_first(), x, FlagTableView { after: Some(FlagValueView::ExtraLines(v)), ..t });
            }
        } else if arg == "-b"@ {
            if let Ok(v) = count_value(rest, ArgError::BeforeLinesRequired, ArgError::InvalidBeforeLines) {
                lemma_scan_concat(rest.drop_first(), x, FlagTableView { before: Some(FlagValueView::ExtraLines(v)), ..t });
            }
        } else if arg == "-n"@ {
            lemma_scan_concat(rest, x, FlagTableView { numerate: Some(FlagValueView::EnableDisable(true)), ..t });
        } else if arg == "-t"@ {
            if let Ok(ts) = list_value(rest, ArgError::FileTypesRequired, ArgError::MissingFileTypes) {
                lemma_scan_concat(rest.drop_first(), x, FlagTableView { file_types: Some(FlagValueView::SearchTerms(ts)), ..t });
            }
        } else if arg == "-h"@ || arg == "--help"@ {
        } else {
            lemma_scan_concat(rest, x, t);
        }
    }
}

/// The order of flags does not matter: swapping two adjacent groups of
/// different flags, each with a proper value, after words that are read
/// completely (the program name, whole flag groups), leaves the outcome of
/// parsing unchanged.
pub proof fn lemma_flag_order_irrelevant(
    pre: Seq<Seq<char>>,
    g1: Seq<Seq<char>>,
    g2: Seq<Seq<char>>,
    post: Seq<Seq<char>>,
    current_dir: Seq<char>,
    stdin_is_terminal: bool,
)
    requires
        scan_flags(pre, empty_table()) is Finished,
        flag_group(g1),
        flag_group(g2),
        g1[0] != g2[0],
    ensures
        parse_spec(pre + g1 + g2 + post, current_dir, stdin_is_terminal) == parse_spec(
            pre + g2 + g1 + post,
            current_dir,
            stdin_is_terminal,
        ),
{
    let t = finished_table(scan_flags(pre, empty_table()));
    assert(pre + g1 + g2 + post =~= pre + (g1 + (g2 + post)));
    assert(pre + g2 + g1 + post =~= pre + (g2 + (g1 + post)));
    lemma_scan_concat(pre, g1 + (g2 + post), empty_table());
    lemma_scan_concat(pre, g2 + (g1 + post), empty_table());
    lemma_group_read(g1, t);
    lemma_group_read(g2, t);
    lemma_scan_concat(g1, g2 + post, t);
    lemma_scan_concat(g2, g1 + post, t);
    let t1 = group_update(g1, t);
    let t2 = group_update(g2, t);
    lemma_group_read(g2, t1);
    lemma_group_read(g1, t2);
    lemma_scan_concat(g2, post, t1);
    lemma_scan_concat(g1, post, t2);
    assert(group_update(g2, t1) == group_update(g1, t2));
}

} // verus!
