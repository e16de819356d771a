//! The grep provider: which command or file to read, and what the lines
//! that come back become.
use vstd::prelude::*;
use vstd::string::{StrSliceExecFns, StringExecFns};
use crate::command::texts;
use crate::filter::FilterOutput;
use crate::matcher::{Bonus, MatchType};
use crate::truncate::{TruncatedLines, truncate_lines, truncates};

verus! {

/// The options of a run that the front end passes.
pub struct Params {
    /// How many results to show, if capped.
    pub number: Option<usize>,
    /// The display width, if known.
    pub winwidth: Option<usize>,
    /// Whether an icon is put in front of each line.
    pub enable_icon: bool,
    /// Whether captured outputs are ignored.
    pub no_cache: bool,
}

/// A grep run.
pub struct Grep {
    /// The query handed to the grep command.
    pub grep_query: String,
    /// The grep command, needed when `sync` is set.
    pub grep_cmd: Option<String>,
    /// The glob handed to rg's `-g`.
    pub glob: Option<String>,
    /// The working directory of the command.
    pub cmd_dir: Option<String>,
    /// A file of captured grep output to read instead of running a command.
    pub input: Option<String>,
    /// Whether to run the command to completion before filtering.
    pub sync: bool,
}

/// Why a grep run cannot start.
#[derive(Clone, Copy, Debug, PartialEq, Eq, Structural)]
pub enum GrepError {
    /// A synchronous run was asked for without a grep command.
    MissingGrepCmd,
}

/// Where the lines of a streaming run come from.
pub enum DynSource {
    /// A file of captured output.
    File(String),
    /// A shell command, run in a directory if one is given.
    Command { cmd: String, dir: Option<String> },
}

/// What a grep run is to do.
pub enum GrepPlan {
    /// Run the program `args[0]` with the other `args` in `dir`, to completion.
    Sync { args: Vec<String>, dir: Option<String> },
    /// Filter the lines of `source` against `query` as they arrive, scored
    /// under `match_type` with `bonuses`, keeping the best `number`, shown
    /// in `winwidth` columns, fewer when icons are shown.
    Dyn {
        query: String,
        source: DynSource,
        match_type: MatchType,
        bonuses: Vec<Bonus>,
        number: Option<usize>,
        winwidth: Option<usize>,
        enable_icon: bool,
    },
}

/// The shell command that lists every line for the streaming filter.
pub open spec fn rg_exec_cmd() -> Seq<char> {
    "rg --column --line-number --no-heading --color=never --smart-case ''"@
}

fn rg_exec_cmd_string() -> (r: String)
    ensures
        r@ == rg_exec_cmd(),
{
    String::from_str("rg --column --line-number --no-heading --color=never --smart-case ''")
}

/// `c` has the Unicode White_Space property.
pub open spec fn is_white_space(c: char) -> bool {
    let u = c as u32;
    ||| 9 <= u <= 13
    ||| u == 32
    ||| u == 0x85
    ||| u == 0xA0
    ||| u == 0x1680
    ||| 0x2000 <= u <= 0x200A
    ||| u == 0x2028
    ||| u == 0x2029
    ||| u == 0x202F
    ||| u == 0x205F
    ||| u == 0x3000
}

/// The words of `s`: its maximal runs of chars that are not white space,
/// in order.
pub open spec fn words_of(s: Seq<char>) -> Seq<Seq<char>>
    decreases s.len(),
{
    if s.len() == 0 {
        Seq::empty()
    } else {
        let w = words_of(s.drop_last());
        let c = s.last();
        if is_white_space(c) {
            w
        } else if s.len() >= 2 && !is_white_space(s[s.len() - 2]) && w.len() > 0 {
            w.update(w.len() - 1, w.last().push(c))
        } else {
            w.push(seq![c])
        }
    }
}

/// Relies on `str::split_whitespace`: the runs of `s` between chars of the
/// Unicode White_Space property, empty ones left out, in order.
#[verifier::external_body]
fn split_words(s: &str) -> (r: Vec<String>)
    ensures
        texts(r@) == words_of(s@),
{
    s.split_whitespace().map(String::from).collect()
}

/// `w` without the double quotes around it, when it has them and more.
pub open spec fn unquoted(w: Seq<char>) -> Seq<char> {
    if w.len() > 2 && w[0] == '"' && w.last() == '"' {
        w.subrange(1, w.len() - 1)
    } else {
        w
    }
}

fn unquote(w: &str) -> (r: String)
    ensures
        r@ == unquoted(w@),
{
    let n = w.unicode_len();
    if n > 2 && w.get_char(0) == '"' && w.get_char(n - 1) == '"' {
        String::from_str(w.substring_char(1, n - 1))
    } else {
        String::from_str(w)
    }
}

/// The arguments of a synchronous grep run: the words of `cmd`, each without
/// surrounding quotes, then `--json`, the query, and `-g` with the glob.
pub open spec fn sync_args(cmd: Seq<char>, query: Seq<char>, glob: Option<Seq<char>>) -> Seq<
    Seq<char>,
> {
    let base = words_of(cmd).map_values(|w: Seq<char>| unquoted(w)).push("--json"@).push(query);
    match glob {
        Some(g) => base.push("-g"@).push(g),
        None => base,
    }
}

/// The view of an optional string.
pub open spec fn opt_view(s: Option<String>) -> Option<Seq<char>> {
    match s {
        Some(x) => Some(x@),
        None => None,
    }
}

/// The arguments of a grep command run as given: the words of `cmd`, then
/// the query.
pub fn prepare_grep_and_args(cmd: &str, query: &str) -> (r: Vec<String>)
    ensures
        texts(r@) == words_of(cmd@).push(query@),
{
    let mut args = split_words(cmd);
    let ghost before = args@;
    args.push(String::from_str(query));
    assert(texts(args@) =~= texts(before).push(query@));
    args
}

/// Builds the arguments of a synchronous grep run from the command `cmd`.
pub fn prepare_sync_grep_args(cmd: &str, query: &str, glob: &Option<String>) -> (r: Vec<String>)
    ensures
        texts(r@) == sync_args(cmd@, query@, opt_view(*glob)),
{
    let words = split_words(cmd);
    let mut args: Vec<String> = Vec::new();
    let mut k: usize = 0;
    while k < words.len()
        invariant
            k <= words.len(),
            texts(args@) == texts(words@).subrange(0, k as int).map_values(
                |w: Seq<char>| unquoted(w),
            ),
        decreases words.len() - k,
    {
        let u = unquote(words[k].as_str());
        let ghost prev = args@;
        args.push(u);
        proof {
            assert(texts(args@) =~= texts(prev).push(u@));
            assert(texts(words@).subrange(0, k + 1).map_values(|w: Seq<char>| unquoted(w))
                =~= texts(words@).subrange(0, k as int).map_values(|w: Seq<char>| unquoted(w)).push(
                unquoted(texts(words@)[k as int]),
            ));
        }
        k = k + 1;
    }
    proof {
        assert(texts(words@).subrange(0, words.len() as int) =~= texts(words@));
    }
    let ghost a0 = args@;
    args.push(String::from_str("--json"));
    args.push(String::from_str(query));
    proof {
        assert(texts(args@) =~= texts(a0).push("--json"@).push(query@));
    }
    match glob {
        Some(g) => {
            let ghost a1 = args@;
            args.push(String::from_str("-g"));
            args.push(g.clone());
            proof {
                assert(texts(args@) =~= texts(a1).push("-g"@).push(g@));
            }
        },
        None => {},
    }
    args
}

impl Grep {
    /// The directory whose captured output a streaming run may use: its
    /// working directory, unless it reads a file or captures are ignored.
    pub fn cache_dir(&self, params: &Params) -> (r: Option<String>)
        ensures
            opt_view(r) == (if self.sync || self.input is Some || params.no_cache {
                None
            } else {
                opt_view(self.cmd_dir)
            }),
    {
        if self.sync || self.input.is_some() || params.no_cache {
            None
        } else {
            match &self.cmd_dir {
                Some(d) => Some(d.clone()),
                None => None,
            }
        }
    }

    /// `r` is what a synchronous run does: an error without a grep command;
    /// else run that command, its words unquoted, with `--json`, the query
    /// and the glob added, in the working directory.
    pub open spec fn is_sync_plan(&self, r: Result<GrepPlan, GrepError>) -> bool {
        &&& self.grep_cmd is None ==> r == Err::<GrepPlan, GrepError>(GrepError::MissingGrepCmd)
        &&& self.grep_cmd is Some ==> (r matches Ok(GrepPlan::Sync { args, dir }) && texts(args@)
            == sync_args((self.grep_cmd->0)@, self.grep_query@, opt_view(self.glob)) && opt_view(dir)
            == opt_view(self.cmd_dir))
    }

    /// `p` is what a streaming run does: filter the query, on the text of
    /// each grep line with no bonus, with the cap and width of `params`,
    /// against its input file if given; else, with a working directory,
    /// against the output captured there (`cached`, unless captures are
    /// ignored) or rg run there; else against rg run where it stands.
    pub open spec fn is_dyn_plan(&self, params: &Params, cached: Option<String>, p: GrepPlan) -> bool {
        p matches GrepPlan::Dyn { query, source, match_type, bonuses, number, winwidth, enable_icon }
            && query@ == self.grep_query@ && match_type == MatchType::IgnoreFilePath && bonuses@
            == seq![Bonus::Neutral] && number == params.number && winwidth == params.winwidth
            && enable_icon == params.enable_icon && match source {
            DynSource::File(f) => if self.input is Some {
                f@ == (self.input->0)@
            } else {
                self.cmd_dir is Some && !params.no_cache && cached is Some && f@ == (cached->0)@
            },
            DynSource::Command { cmd, dir } => cmd@ == rg_exec_cmd() && self.input is None
                && opt_view(dir) == opt_view(self.cmd_dir) && (self.cmd_dir is Some
                ==> params.no_cache || cached is None),
        }
    }

    /// Decides what a synchronous run does.
    pub fn sync_run(&self) -> (r: Result<GrepPlan, GrepError>)
        ensures
            self.is_sync_plan(r),
    {
        match &self.grep_cmd {
            None => Err(GrepError::MissingGrepCmd),
            Some(cmd) => {
                let args = prepare_sync_grep_args(cmd.as_str(), self.grep_query.as_str(), &self.glob);
                let dir = match &self.cmd_dir {
                    Some(d) => Some(d.clone()),
                    None => None,
                };
                Ok(GrepPlan::Sync { args, dir })
            },
        }
    }

    /// Decides what a streaming run does, given the output captured for its
    /// working directory, if any.
    pub fn dyn_run(&self, params: &Params, cached: Option<String>) -> (r: GrepPlan)
        ensures
            self.is_dyn_plan(params, cached, r),
    {
        let query = self.grep_query.clone();
        let source = match &self.input {
            Some(f) => DynSource::File(f.clone()),
            None => match &self.cmd_dir {
                Some(d) => {
                    match cached {
                        Some(c) if !params.no_cache => DynSource::File(c),
                        _ => DynSource::Command { cmd: rg_exec_cmd_string(), dir: Some(d.clone()) },
                    }
                },
                None => DynSource::Command { cmd: rg_exec_cmd_string(), dir: None },
            },
        };
        let bonuses = vec![Bonus::Neutral];
        assert(bonuses@ =~= seq![Bonus::Neutral]);
        GrepPlan::Dyn {
            query,
            source,
            match_type: MatchType::IgnoreFilePath,
            bonuses,
            number: params.number,
            winwidth: params.winwidth,
            enable_icon: params.enable_icon,
        }
    }

    /// Decides what the run does: a synchronous or a streaming run, as
    /// `sync` says.
    pub fn run(&self, params: &Params, cached: Option<String>) -> (r: Result<GrepPlan, GrepError>)
        ensures
            self.sync ==> self.is_sync_plan(r),
            !self.sync ==> (r matches Ok(p) && self.is_dyn_plan(params, cached, p)),
    {
        if self.sync {
            self.sync_run()
        } else {
            Ok(self.dyn_run(params, cached))
        }
    }
}

/// The arguments rg is run with to list every line of a directory.
pub open spec fn rg_args_spec() -> Seq<Seq<char>> {
    seq![
        "rg"@,
        "--column"@,
        "--line-number"@,
        "--no-heading"@,
        "--color=never"@,
        "--smart-case"@,
        ""@,
    ]
}

/// The arguments rg is run with to list every line of a directory; the
/// first is the program.
pub fn rg_args() -> (r: Vec<String>)
    ensures
        texts(r@) == rg_args_spec(),
{
    let r = vec![
        String::from_str("rg"),
        String::from_str("--column"),
        String::from_str("--line-number"),
        String::from_str("--no-heading"),
        String::from_str("--color=never"),
        String::from_str("--smart-case"),
        String::from_str(""),
    ];
    assert(texts(r@) =~= rg_args_spec());
    r
}

/// A run of rg started ahead of a grep search, so that its output is
/// captured before it is needed.
pub struct RipGrepForerunner {
    /// The working directory of the command.
    pub cmd_dir: Option<String>,
    /// The line count above which the output is kept in a file.
    pub output_threshold: usize,
}

/// What the forerunner is to do.
pub enum ForerunnerAction {
    /// Send the output captured in `path`, of `total` lines.
    FromCache { path: String, total: usize },
    /// Nothing: the directory is not a git repository.
    Skip,
    /// Run rg with `args` in `dir`, keeping the output in a file past
    /// `threshold` lines, and show `number` lines.
    Run { args: Vec<String>, dir: Option<String>, number: Option<usize>, threshold: usize },
}

impl RipGrepForerunner {
    /// Whether the job is skipped: only a git repository gets one.
    /// `in_git_repo` says whether the working directory (or, without one,
    /// the current directory) is one, `None` when it cannot be told.
    pub fn should_skip(&self, in_git_repo: Option<bool>) -> (r: bool)
        ensures
            r == (in_git_repo == Some(false)),
    {
        match in_git_repo {
            Some(b) => !b,
            None => false,
        }
    }

    /// Decides what the forerunner does: send the output captured for its
    /// working directory (`cached`) when captures are not ignored; else
    /// nothing outside a git repository; else run rg.
    pub fn run(self, params: &Params, cached: Option<(String, usize)>, in_git_repo: Option<bool>) -> (r:
        ForerunnerAction)
        ensures
            ({
                let from_cache = !params.no_cache && self.cmd_dir is Some && cached is Some;
                &&& from_cache ==> (r matches ForerunnerAction::FromCache { path, total } && path@
                    == (cached->0).0@ && total == (cached->0).1)
                &&& !from_cache && in_git_repo == Some(false) ==> r is Skip
                &&& !from_cache && in_git_repo != Some(false) ==> (r matches ForerunnerAction::Run {
                    args,
                    dir,
                    number,
                    threshold,
                } && texts(args@) == rg_args_spec() && opt_view(dir) == opt_view(self.cmd_dir)
                    && number == params.number && threshold == self.output_threshold)
            }),
    {
        if !params.no_cache && self.cmd_dir.is_some() {
            match cached {
                Some((path, total)) => {
                    return ForerunnerAction::FromCache { path, total };
                },
                None => {},
            }
        }
        if self.should_skip(in_git_repo) {
            return ForerunnerAction::Skip;
        }
        ForerunnerAction::Run {
            args: rg_args(),
            dir: self.cmd_dir,
            number: params.number,
            threshold: self.output_threshold,
        }
    }
}

/// The character of the digit `d`.
pub open spec fn digit_char(d: nat) -> char {
    if d == 0 { '0' } else if d == 1 { '1' } else if d == 2 { '2' } else if d == 3 { '3' }
    else if d == 4 { '4' } else if d == 5 { '5' } else if d == 6 { '6' } else if d == 7 { '7' }
    else if d == 8 { '8' } else { '9' }
}

/// The decimal digits of `n`.
pub open spec fn decimal_of(n: nat) -> Seq<char>
    decreases n,
{
    if n < 10 {
        seq![digit_char(n)]
    } else {
        decimal_of(n / 10).push(digit_char(n % 10))
    }
}

/// Relies on `usize::to_string`: the decimal digits of `n`.
#[verifier::external_body]
fn decimal(n: usize) -> (r: String)
    ensures
        r@ == decimal_of(n as nat),
{
    n.to_string()
}

/// The display line of a grep match: `path:line:column:text`, the column
/// counted from 1 at the match's first char.
pub open spec fn grep_line_text(path: Seq<char>, line_number: nat, text: Seq<char>, start: nat) -> Seq<
    char,
> {
    path + seq![':'] + decimal_of(line_number) + seq![':'] + decimal_of(start + 1) + seq![':'] + text
}

/// Builds the display line of a grep match of `text[start..end]` (char
/// positions) on line `line_number` of `path`, and the positions of the
/// match in that line.
pub fn build_grep_line(path: &str, line_number: usize, text: &str, start: usize, end: usize) -> (r: (
    String,
    Vec<usize>,
))
    requires
        start <= end <= text@.len(),
        text@.len() < usize::MAX,
    ensures
        r.0@ == grep_line_text(path@, line_number as nat, text@, start as nat),
        r.1@ == Seq::new(
            (end - start) as nat,
            |k: int| (r.0@.len() - text@.len() + start + k) as usize,
        ),
{
    let mut line = String::from_str(path);
    proof {
        reveal_strlit(":");
    }
    line.append(":");
    let num = decimal(line_number);
    line.append(num.as_str());
    line.append(":");
    let col = decimal(start + 1);
    line.append(col.as_str());
    line.append(":");
    let offset = line.as_str().unicode_len();
    line.append(text);
    let total = line.as_str().unicode_len();
    let mut idx: Vec<usize> = Vec::new();
    let mut k: usize = start;
    while k < end
        invariant
            start <= k <= end,
            end <= text@.len(),
            line@.len() == offset + text@.len(),
            total == line@.len(),
            idx@.len() == k - start,
            forall|j: int| 0 <= j < idx@.len() ==> #[trigger] idx@[j] == offset + start + j,
        decreases end - k,
    {
        idx.push(offset + k);
        k = k + 1;
    }
    assert(line@ =~= grep_line_text(path@, line_number as nat, text@, start as nat));
    assert(idx@ =~= Seq::new(
        (end - start) as nat,
        |j: int| (line@.len() - text@.len() + start + j) as usize,
    ));
    (line, idx)
}

/// What a synchronous grep run shows: its number of lines before
/// truncation, and the lines bounded to the display width.
pub struct GrepOutput {
    pub total: usize,
    pub truncated: TruncatedLines,
}

/// The display width when the front end gives none.
pub const DEFAULT_WINWIDTH: usize = 80;

/// The columns an icon takes.
pub const ICON_WIDTH: usize = 2;

/// Bounds the grep lines `lines`, with matched positions `indices`, to the
/// display width (80 when unknown), two columns fewer when icons are shown;
/// `total` is the number of lines before.
pub fn sync_grep_output(
    lines: &Vec<String>,
    indices: &Vec<Vec<usize>>,
    winwidth: Option<usize>,
    enable_icon: bool,
) -> (r: GrepOutput)
    requires
        lines.len() == indices.len(),
    ensures
        r.total == lines.len(),
        truncates(
            r.truncated,
            lines@,
            indices@,
            match winwidth {
                Some(w) => w,
                None => DEFAULT_WINWIDTH,
            },
            if enable_icon {
                Some(ICON_WIDTH)
            } else {
                None
            },
        ),
{
    let width = match winwidth {
        Some(w) => w,
        None => DEFAULT_WINWIDTH,
    };
    let skipped = if enable_icon {
        Some(ICON_WIDTH)
    } else {
        None
    };
    GrepOutput { total: lines.len(), truncated: truncate_lines(lines, indices, width, skipped) }
}

/// Bounds a snapshot of a streaming run to the display width (80 when
/// unknown), two columns fewer when icons are shown; `total` stays the
/// snapshot's number of matches.
pub fn snapshot_output(snapshot: &FilterOutput, winwidth: Option<usize>, enable_icon: bool) -> (r:
    GrepOutput)
    requires
        snapshot.lines.len() == snapshot.indices.len(),
    ensures
        r.total == snapshot.total,
        truncates(
            r.truncated,
            snapshot.lines@,
            snapshot.indices@,
            match winwidth {
                Some(w) => w,
                None => DEFAULT_WINWIDTH,
            },
            if enable_icon {
                Some(ICON_WIDTH)
            } else {
                None
            },
        ),
{
    let out = sync_grep_output(&snapshot.lines, &snapshot.indices, winwidth, enable_icon);
    GrepOutput { total: snapshot.total, truncated: out.truncated }
}

} // verus!
