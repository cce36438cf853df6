//! The command line of the inspection shell: one line of input becomes one query.
//!
//! A line is a command word, and behind a single space its argument. A line feed at the
//! end of the line is dropped. What follows a second space is ignored.

use vstd::prelude::*;
use crate::bytes::copy_range;
use crate::command::{
    views_of, BlobReport, ChangeDir, ChunkMatch, FileStat, InodeReport, PrefetchEntry, StatReport,
    Stats,
};
use crate::error::RafsError;
use crate::inspect::RafsInspector;
use crate::visitor::{bytes_eq, entry_views, DirEntry};

verus! {

/// Why a line of input gave no result.
#[derive(Clone, Copy, Debug, PartialEq, Eq, Structural)]
pub enum ExecuteError {
    /// The line asked for the usage text.
    HelpCommand,
    /// The line holds no known command, or a command with an argument too many or too
    /// few.
    IllegalCommand,
    /// The argument is not the number that the command takes.
    ArgumentParse,
    /// The line asked for the end of the session.
    Exit,
    /// The query was run and failed.
    ExecuteError(RafsError),
}

/// A query of the inspection shell.
#[derive(Clone, Debug, PartialEq, Eq)]
pub enum Command {
    /// `stats`: what the superblock says of the image.
    Stats,
    /// `ls`: the entries of the current directory.
    ListDir,
    /// `cd DIR`: change the current directory.
    ChangeDir(Vec<u8>),
    /// `stat FILE_NAME`: what is known of one file of the current directory.
    StatFile(Vec<u8>),
    /// `blobs`: the blob table.
    ListBlobs,
    /// `prefetch`: the prefetch table.
    ListPrefetch,
    /// `chunk OFFSET`: the chunks at an offset of their blob.
    ShowChunk(u64),
    /// `icheck INODE`: the entries with an inode number.
    CheckInode(u64),
    /// `index INDEX`: the inode at a table index.
    StatByIndex(usize),
}

/// A query as a mathematical value.
pub enum CommandView {
    Stats,
    ListDir,
    ChangeDir(Seq<u8>),
    StatFile(Seq<u8>),
    ListBlobs,
    ListPrefetch,
    ShowChunk(u64),
    CheckInode(u64),
    StatByIndex(usize),
}

impl View for Command {
    type V = CommandView;

    open spec fn view(&self) -> CommandView {
        match self {
            Command::Stats => CommandView::Stats,
            Command::ListDir => CommandView::ListDir,
            Command::ChangeDir(name) => CommandView::ChangeDir(name@),
            Command::StatFile(name) => CommandView::StatFile(name@),
            Command::ListBlobs => CommandView::ListBlobs,
            Command::ListPrefetch => CommandView::ListPrefetch,
            Command::ShowChunk(offset) => CommandView::ShowChunk(*offset),
            Command::CheckInode(ino) => CommandView::CheckInode(*ino),
            Command::StatByIndex(index) => CommandView::StatByIndex(*index),
        }
    }
}

/// The result of a query.
#[derive(Clone, Debug, PartialEq, Eq)]
pub enum Output {
    Stats(Stats),
    ListDir(Vec<DirEntry>),
    ChangeDir(ChangeDir),
    StatFile(Option<StatReport>),
    ListBlobs(Vec<BlobReport>),
    ListPrefetch(Vec<PrefetchEntry>),
    ShowChunk(Vec<ChunkMatch>),
    CheckInode(Vec<InodeReport>),
    StatByIndex(FileStat),
}

/// The byte that separates the command word from its argument.
pub const SPACE: u8 = 0x20;

/// The byte that ends a line.
pub const LINE_FEED: u8 = 0x0a;

/// The word `help`.
pub open spec fn word_help() -> Seq<u8> {
    seq![0x68u8, 0x65, 0x6c, 0x70]
}

/// The word `exit`.
pub open spec fn word_exit() -> Seq<u8> {
    seq![0x65u8, 0x78, 0x69, 0x74]
}

/// The word `q`.
pub open spec fn word_q() -> Seq<u8> {
    seq![0x71u8]
}

/// The word `stats`.
pub open spec fn word_stats() -> Seq<u8> {
    seq![0x73u8, 0x74, 0x61, 0x74, 0x73]
}

/// The word `ls`.
pub open spec fn word_ls() -> Seq<u8> {
    seq![0x6cu8, 0x73]
}

/// The word `cd`.
pub open spec fn word_cd() -> Seq<u8> {
    seq![0x63u8, 0x64]
}

/// The word `stat`.
pub open spec fn word_stat() -> Seq<u8> {
    seq![0x73u8, 0x74, 0x61, 0x74]
}

/// The word `blobs`.
pub open spec fn word_blobs() -> Seq<u8> {
    seq![0x62u8, 0x6c, 0x6f, 0x62, 0x73]
}

/// The word `prefetch`.
pub open spec fn word_prefetch() -> Seq<u8> {
    seq![0x70u8, 0x72, 0x65, 0x66, 0x65, 0x74, 0x63, 0x68]
}

/// The word `chunk`.
pub open spec fn word_chunk() -> Seq<u8> {
    seq![0x63u8, 0x68, 0x75, 0x6e, 0x6b]
}

/// The word `icheck`.
pub open spec fn word_icheck() -> Seq<u8> {
    seq![0x69u8, 0x63, 0x68, 0x65, 0x63, 0x6b]
}

/// The word `index`.
pub open spec fn word_index() -> Seq<u8> {
    seq![0x69u8, 0x6e, 0x64, 0x65, 0x78]
}

/// The line without the line feed at its end, if it has one.
pub open spec fn without_line_feed(s: Seq<u8>) -> Seq<u8> {
    if s.len() > 0 && s.last() == LINE_FEED {
        s.drop_last()
    } else {
        s
    }
}

/// The position of the first space of `s` at or behind `p`, or the length of `s` where
/// there is none.
pub open spec fn token_end(s: Seq<u8>, p: int) -> int
    decreases s.len() - p,
{
    if p < 0 || p >= s.len() {
        s.len() as int
    } else if s[p] == SPACE {
        p
    } else {
        token_end(s, p + 1)
    }
}

/// The command word of a line: what stands before its first space.
pub open spec fn command_word(line: Seq<u8>) -> Seq<u8> {
    line.subrange(0, token_end(line, 0))
}

/// The argument of a line: what stands between its first space and its second, or
/// `None` where the line has no space.
pub open spec fn command_argument(line: Seq<u8>) -> Option<Seq<u8>> {
    let first = token_end(line, 0);
    if first >= line.len() {
        None
    } else {
        Some(line.subrange(first + 1, token_end(line, first + 1)))
    }
}

/// Whether every byte of `s` is a decimal digit.
pub open spec fn all_digits(s: Seq<u8>) -> bool {
    forall|i: int| 0 <= i < s.len() ==> 0x30 <= #[trigger] s[i] <= 0x39
}

/// The number that the decimal digits of `s` write.
pub open spec fn digits_value(s: Seq<u8>) -> nat
    decreases s.len(),
{
    if s.len() == 0 {
        0
    } else {
        (10 * digits_value(s.drop_last()) + (s.last() - 0x30)) as nat
    }
}

/// The number that `s` writes in decimal digits, behind a plus sign or none, where it is
/// at most `max`; `None` for anything else.
pub open spec fn decimal(s: Seq<u8>, max: nat) -> Option<nat> {
    let digits = if s.len() > 0 && s[0] == 0x2b {
        s.subrange(1, s.len() as int)
    } else {
        s
    };
    if digits.len() > 0 && all_digits(digits) && digits_value(digits) <= max {
        Some(digits_value(digits))
    } else {
        None
    }
}

/// More digits never write a smaller number.
pub proof fn lemma_digits_value_grows(s: Seq<u8>, k: int)
    requires
        all_digits(s),
        0 <= k <= s.len(),
    ensures
        digits_value(s.subrange(0, k)) <= digits_value(s),
    decreases s.len() - k,
{
    if k < s.len() {
        let longer = s.subrange(0, k + 1);
        assert(longer.drop_last() =~= s.subrange(0, k));
        assert(longer.last() == s[k]);
        lemma_digits_value_grows(s, k + 1);
    } else {
        assert(s.subrange(0, k) =~= s);
    }
}

/// Finds the first space of `s` at or behind `from`.
pub fn find_token_end(s: &[u8], from: usize) -> (end: usize)
    requires
        from <= s@.len(),
    ensures
        end == token_end(s@, from as int),
        from <= end <= s@.len(),
{
    let len = s.len();
    let mut end: usize = from;
    while end < len && s[end] != SPACE
        invariant
            from <= end <= len,
            len == s@.len(),
            token_end(s@, from as int) == token_end(s@, end as int),
        decreases len - end,
    {
        end = end + 1;
    }
    end
}

/// Reads a number written in decimal digits alone.
pub fn parse_digits(s: &[u8]) -> (res: Option<u64>)
    ensures
        res is Some <==> s@.len() > 0 && all_digits(s@) && digits_value(s@) <= u64::MAX,
        res is Some ==> res->0 == digits_value(s@),
{
    let len = s.len();
    if len == 0 {
        return None;
    }
    let mut value: u64 = 0;
    let mut k: usize = 0;
    assert(s@.subrange(0, 0) =~= Seq::<u8>::empty());
    while k < len
        invariant
            k <= len,
            0 < len == s@.len(),
            all_digits(s@.subrange(0, k as int)),
            value == digits_value(s@.subrange(0, k as int)),
        decreases len - k,
    {
        let b = s[k];
        if b < 0x30 || b > 0x39 {
            assert(s@[k as int] == b);
            return None;
        }
        let ghost longer = s@.subrange(0, k + 1);
        proof {
            assert(longer.drop_last() =~= s@.subrange(0, k as int));
            assert(longer.last() == b);
            assert forall|i: int| 0 <= i < longer.len() implies 0x30 <= #[trigger] longer[i]
                <= 0x39 by {
                if i < k {
                    assert(s@.subrange(0, k as int)[i] == longer[i]);
                }
            }
            assert(digits_value(longer) == 10 * value + (b - 0x30));
        }
        let d = (b - 0x30) as u64;
        let next = match value.checked_mul(10) {
            Some(v) => v.checked_add(d),
            None => None,
        };
        match next {
            Some(v) => {
                value = v;
            },
            None => {
                proof {
                    if all_digits(s@) {
                        lemma_digits_value_grows(s@, k + 1);
                    }
                }
                return None;
            },
        }
        k = k + 1;
    }
    assert(s@.subrange(0, k as int) =~= s@);
    Some(value)
}

/// Reads a number written in decimal digits, behind a plus sign or none.
pub fn parse_decimal(s: &[u8]) -> (res: Option<u64>)
    ensures
        res is Some <==> decimal(s@, u64::MAX as nat) is Some,
        res is Some ==> res->0 == decimal(s@, u64::MAX as nat)->0,
{
    let len = s.len();
    if len > 0 && s[0] == 0x2b {
        parse_digits(vstd::slice::slice_subrange(s, 1, len))
    } else {
        parse_digits(s)
    }
}

/// The session of the inspection shell, which has no state of its own.
pub struct Executor {}

impl Executor {
    /// The query that a line of input asks for, or the reason why it asks for none.
    pub open spec fn parsed(input: Seq<u8>) -> Result<CommandView, ExecuteError> {
        let line = without_line_feed(input);
        let cmd = command_word(line);
        let arg = command_argument(line);
        if cmd == word_help() {
            Err(ExecuteError::HelpCommand)
        } else if cmd == word_exit() || cmd == word_q() {
            Err(ExecuteError::Exit)
        } else if cmd == word_stats() && arg is None {
            Ok(CommandView::Stats)
        } else if cmd == word_ls() && arg is None {
            Ok(CommandView::ListDir)
        } else if cmd == word_cd() && arg is Some {
            Ok(CommandView::ChangeDir(arg->0))
        } else if cmd == word_stat() && arg is Some {
            Ok(CommandView::StatFile(arg->0))
        } else if cmd == word_blobs() && arg is None {
            Ok(CommandView::ListBlobs)
        } else if cmd == word_prefetch() && arg is None {
            Ok(CommandView::ListPrefetch)
        } else if cmd == word_chunk() && arg is Some {
            match decimal(arg->0, u64::MAX as nat) {
                Some(n) => Ok(CommandView::ShowChunk(n as u64)),
                None => Err(ExecuteError::ArgumentParse),
            }
        } else if cmd == word_icheck() && arg is Some {
            match decimal(arg->0, u64::MAX as nat) {
                Some(n) => Ok(CommandView::CheckInode(n as u64)),
                None => Err(ExecuteError::ArgumentParse),
            }
        } else if cmd == word_index() && arg is Some {
            match decimal(arg->0, usize::MAX as nat) {
                Some(n) => Ok(CommandView::StatByIndex(n as usize)),
                None => Err(ExecuteError::ArgumentParse),
            }
        } else {
            Err(ExecuteError::IllegalCommand)
        }
    }

    /// Reads a line of input.
    pub fn parse(input: &[u8]) -> (res: Result<Command, ExecuteError>)
        ensures
            match Self::parsed(input@) {
                Ok(cmd) => res is Ok && res->Ok_0@ == cmd,
                Err(e) => res == Err::<Command, ExecuteError>(e),
            },
    {
        let total = input.len();
        let end = if total > 0 && input[total - 1] == LINE_FEED {
            total - 1
        } else {
            total
        };
        let line = vstd::slice::slice_subrange(input, 0, end);
        assert(line@ =~= without_line_feed(input@));
        let first = find_token_end(line, 0);
        let cmd = vstd::slice::slice_subrange(line, 0, first);
        let arg: Option<&[u8]> = if first >= end {
            None
        } else {
            let second = find_token_end(line, first + 1);
            Some(vstd::slice::slice_subrange(line, first + 1, second))
        };
        assert(cmd@ == command_word(line@));
        assert(match command_argument(line@) {
            Some(a) => arg is Some && arg->0@ == a,
            None => arg is None,
        });
        let help: [u8; 4] = [0x68, 0x65, 0x6c, 0x70];
        let exit: [u8; 4] = [0x65, 0x78, 0x69, 0x74];
        let q: [u8; 1] = [0x71];
        let stats: [u8; 5] = [0x73, 0x74, 0x61, 0x74, 0x73];
        let ls: [u8; 2] = [0x6c, 0x73];
        let cd: [u8; 2] = [0x63, 0x64];
        let stat: [u8; 4] = [0x73, 0x74, 0x61, 0x74];
        let blobs: [u8; 5] = [0x62, 0x6c, 0x6f, 0x62, 0x73];
        let prefetch: [u8; 8] = [0x70, 0x72, 0x65, 0x66, 0x65, 0x74, 0x63, 0x68];
        let chunk: [u8; 5] = [0x63, 0x68, 0x75, 0x6e, 0x6b];
        let icheck: [u8; 6] = [0x69, 0x63, 0x68, 0x65, 0x63, 0x6b];
        let index: [u8; 5] = [0x69, 0x6e, 0x64, 0x65, 0x78];
        assert(help@ =~= word_help());
        assert(exit@ =~= word_exit());
        assert(q@ =~= word_q());
        assert(stats@ =~= word_stats());
        assert(ls@ =~= word_ls());
        assert(cd@ =~= word_cd());
        assert(stat@ =~= word_stat());
        assert(blobs@ =~= word_blobs());
        assert(prefetch@ =~= word_prefetch());
        assert(chunk@ =~= word_chunk());
        assert(icheck@ =~= word_icheck());
        assert(index@ =~= word_index());
        if bytes_eq(cmd, help.as_slice()) {
            return Err(ExecuteError::HelpCommand);
        }
        if bytes_eq(cmd, exit.as_slice()) || bytes_eq(cmd, q.as_slice()) {
            return Err(ExecuteError::Exit);
        }
        match arg {
            None => {
                if bytes_eq(cmd, stats.as_slice()) {
                    Ok(Command::Stats)
                } else if bytes_eq(cmd, ls.as_slice()) {
                    Ok(Command::ListDir)
                } else if bytes_eq(cmd, blobs.as_slice()) {
                    Ok(Command::ListBlobs)
                } else if bytes_eq(cmd, prefetch.as_slice()) {
                    Ok(Command::ListPrefetch)
                } else {
                    Err(ExecuteError::IllegalCommand)
                }
            },
            Some(a) => {
                if bytes_eq(cmd, cd.as_slice()) {
                    let name = copy_range(a, 0, a.len());
                    assert(name@ =~= a@);
                    Ok(Command::ChangeDir(name))
                } else if bytes_eq(cmd, stat.as_slice()) {
                    let name = copy_range(a, 0, a.len());
                    assert(name@ =~= a@);
                    Ok(Command::StatFile(name))
                } else if bytes_eq(cmd, chunk.as_slice()) {
                    match parse_decimal(a) {
                        Some(n) => Ok(Command::ShowChunk(n)),
                        None => Err(ExecuteError::ArgumentParse),
                    }
                } else if bytes_eq(cmd, icheck.as_slice()) {
                    match parse_decimal(a) {
                        Some(n) => Ok(Command::CheckInode(n)),
                        None => Err(ExecuteError::ArgumentParse),
                    }
                } else if bytes_eq(cmd, index.as_slice()) {
                    match parse_decimal(a) {
                        Some(n) => if n <= usize::MAX as u64 {
                            Ok(Command::StatByIndex(n as usize))
                        } else {
                            Err(ExecuteError::ArgumentParse)
                        },
                        None => Err(ExecuteError::ArgumentParse),
                    }
                } else {
                    Err(ExecuteError::IllegalCommand)
                }
            },
        }
    }

    /// Whether `after` and `res` are what the query `cmd` makes of the inspector
    /// `before`. Only a change of directory touches the inspector. Every other query
    /// returns what the function of the inspector that stands for it says.
    pub open spec fn ran(
        before: &RafsInspector,
        after: &RafsInspector,
        cmd: CommandView,
        res: Result<Output, RafsError>,
    ) -> bool {
        match cmd {
            CommandView::Stats => *after == *before && match before.stats() {
                Err(e) => res == Err::<Output, RafsError>(e),
                Ok(stats) => res == Ok::<Output, RafsError>(Output::Stats(stats)),
            },
            CommandView::ListDir => *after == *before && match before.listing() {
                Err(e) => res == Err::<Output, RafsError>(e),
                Ok(entries) => res matches Ok(Output::ListDir(found)) && entry_views(found@)
                    == entries,
            },
            CommandView::ChangeDir(name) => match res {
                Ok(Output::ChangeDir(how)) => before.changed_dir(after, name, Ok(how)),
                Ok(_) => false,
                Err(e) => before.changed_dir(after, name, Err(e)),
            },
            CommandView::StatFile(name) => *after == *before && match before.stat_of(name) {
                Err(e) => res == Err::<Output, RafsError>(e),
                Ok(None) => res matches Ok(Output::StatFile(None)),
                Ok(Some(report)) => res matches Ok(Output::StatFile(Some(found))) && found@
                    == report,
            },
            CommandView::ListBlobs => *after == *before && (res matches Ok(
                Output::ListBlobs(found),
            ) && before.blob_reports(found@)),
            CommandView::ListPrefetch => *after == *before && match before.prefetch_inodes() {
                Err(e) => res == Err::<Output, RafsError>(e),
                Ok(inos) => match before.paths_from(inos, 0, Seq::empty()) {
                    Err(e) => res == Err::<Output, RafsError>(e),
                    Ok(paths) => res matches Ok(Output::ListPrefetch(found)) && views_of(found@)
                        == paths,
                },
            },
            CommandView::ShowChunk(offset) => *after == *before && match before.chunk_matches(
                offset,
            ) {
                Err(e) => res == Err::<Output, RafsError>(e),
                Ok(matches) => res matches Ok(Output::ShowChunk(found)) && views_of(found@)
                    == matches,
            },
            CommandView::CheckInode(ino) => *after == *before && match before.inode_reports(ino) {
                Err(e) => res == Err::<Output, RafsError>(e),
                Ok(reports) => res matches Ok(Output::CheckInode(found)) && views_of(found@)
                    == reports,
            },
            CommandView::StatByIndex(index) => *after == *before && match before.inode_by_index(
                index as int,
            ) {
                Err(e) => res == Err::<Output, RafsError>(e),
                Ok((inode, name)) => res matches Ok(Output::StatByIndex(found)) && found@ == (
                    name,
                    inode,
                    index as int,
                ),
            },
        }
    }

    /// Runs the query `cmd` on `inspector`.
    pub fn run(inspector: &mut RafsInspector, cmd: &Command) -> (res: Result<Output, RafsError>)
        ensures
            Self::ran(old(inspector), final(inspector), cmd@, res),
    {
        match cmd {
            Command::Stats => match inspector.cmd_stats() {
                Ok(stats) => Ok(Output::Stats(stats)),
                Err(e) => Err(e),
            },
            Command::ListDir => match inspector.cmd_list_dir() {
                Ok(entries) => Ok(Output::ListDir(entries)),
                Err(e) => Err(e),
            },
            Command::ChangeDir(name) => match inspector.cmd_change_dir(name.as_slice()) {
                Ok(how) => Ok(Output::ChangeDir(how)),
                Err(e) => Err(e),
            },
            Command::StatFile(name) => match inspector.cmd_stat_file(name.as_slice()) {
                Ok(report) => Ok(Output::StatFile(report)),
                Err(e) => Err(e),
            },
            Command::ListBlobs => Ok(Output::ListBlobs(inspector.cmd_list_blobs())),
            Command::ListPrefetch => match inspector.cmd_list_prefetch() {
                Ok(entries) => Ok(Output::ListPrefetch(entries)),
                Err(e) => Err(e),
            },
            Command::ShowChunk(offset) => match inspector.cmd_show_chunk(*offset) {
                Ok(matches) => Ok(Output::ShowChunk(matches)),
                Err(e) => Err(e),
            },
            Command::CheckInode(ino) => match inspector.cmd_check_inode(*ino) {
                Ok(reports) => Ok(Output::CheckInode(reports)),
                Err(e) => Err(e),
            },
            Command::StatByIndex(index) => match inspector.cmd_stat_file_by_index(*index) {
                Ok(stat) => Ok(Output::StatByIndex(stat)),
                Err(e) => Err(e),
            },
        }
    }

    /// Reads the line `input` and runs the query it asks for. A line that asks for no
    /// query leaves the inspector as it was and returns the reason; a query that fails
    /// returns its error as `ExecuteError`.
    pub fn execute(inspector: &mut RafsInspector, input: String) -> (res: Result<
        Output,
        ExecuteError,
    >)
        ensures
            match Self::parsed(vstd::utf8::encode_utf8(input@)) {
                Err(e) => res == Err::<Output, ExecuteError>(e) && *final(inspector) == *old(
                    inspector,
                ),
                Ok(cmd) => match res {
                    Ok(out) => Self::ran(old(inspector), final(inspector), cmd, Ok(out)),
                    Err(ExecuteError::ExecuteError(e)) => Self::ran(
                        old(inspector),
                        final(inspector),
                        cmd,
                        Err(e),
                    ),
                    Err(_) => false,
                },
            },
    {
        let cmd = match Self::parse(input.as_str().as_bytes()) {
            Ok(cmd) => cmd,
            Err(e) => {
                return Err(e);
            },
        };
        match Self::run(inspector, &cmd) {
            Ok(out) => Ok(out),
            Err(e) => Err(ExecuteError::ExecuteError(e)),
        }
    }

    /// The text that explains the commands.
    pub fn usage() -> (text: &'static str)
        ensures
            text@ == Self::usage_text(),
    {
        "
    stats:              Display global rafs metadata
    ls:                 Show files in current directory
    cd DIR:             Change current directory
    stat FILE_NAME:     Show particular information of rafs inode
    blobs:              Show blobs table
    prefetch:           Show prefetch table
    chunk OFFSET:       List basic info of a single chunk together with a list of files that share it
    icheck INODE:       Show path of the inode and basic information
    index INDEX:        Show information about a file by its index
        "
    }

    /// The characters of the usage text.
    pub open spec fn usage_text() -> Seq<char> {
        "
    stats:              Display global rafs metadata
    ls:                 Show files in current directory
    cd DIR:             Change current directory
    stat FILE_NAME:     Show particular information of rafs inode
    blobs:              Show blobs table
    prefetch:           Show prefetch table
    chunk OFFSET:       List basic info of a single chunk together with a list of files that share it
    icheck INODE:       Show path of the inode and basic information
    index INDEX:        Show information about a file by its index
        "@
    }
}

} // verus!
