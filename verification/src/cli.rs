//! The command line: the commands and their arguments, the bounds they obey,
//! and a parser from argument lists to commands.
use vstd::prelude::*;
use vstd::string::*;
use crate::text::{parse_bounded_decimal, same_text, u64_text, bounded_decimal, decimal_text};

verus! {

/// The most UTF-8 bytes of an account identifier.
pub const MAX_ACCOUNT_BYTES: usize = 1024;

/// The body bound of `get --include-body` when `--max-body-bytes` is absent.
pub const DEFAULT_MAX_BODY_BYTES: u32 = 65536;

/// The most UTF-8 bytes of a mailbox path.
pub const MAX_MAILBOX_BYTES: usize = 4096;

/// The most UTF-8 bytes of a search query.
pub const MAX_QUERY_BYTES: usize = 1024;

/// The number of messages that `unread` and `search` return by default.
pub const DEFAULT_LIMIT: u16 = 25;

/// The largest number of messages that `unread` and `search` may return.
pub const MAX_LIMIT: u16 = 200;

/// The largest body bound that `get --max-body-bytes` accepts.
pub const MAX_BODY_BYTES_BOUND: u32 = 1000000;

/// True for a text that is not empty and whose UTF-8 encoding takes at most
/// `max_bytes` bytes.
pub open spec fn bounded_text(s: Seq<char>, max_bytes: nat) -> bool {
    s.len() > 0 && vstd::utf8::encode_utf8(s).len() <= max_bytes
}

/// A non-empty text of at most `MAX_BYTES` UTF-8 bytes.
#[derive(Debug)]
pub struct BoundedText<const MAX_BYTES: usize>(String);

impl<const MAX_BYTES: usize> View for BoundedText<MAX_BYTES> {
    type V = Seq<char>;

    closed spec fn view(&self) -> Seq<char> {
        self.0@
    }
}

impl<const MAX_BYTES: usize> BoundedText<MAX_BYTES> {
    #[verifier::type_invariant]
    closed spec fn inv(self) -> bool {
        bounded_text(self.0@, MAX_BYTES as nat)
    }

    /// Accepts a text that is not empty and fits in `MAX_BYTES` bytes; the
    /// error says which of the two it breaks.
    pub fn parse(value: &str) -> (r: Result<Self, String>)
        ensures
            match r {
                Ok(t) => t@ == value@,
                Err(message) => !bounded_text(value@, MAX_BYTES as nat) && message@ == (
                    if value@.len() == 0 {
                        "value must not be empty"@
                    } else {
                        "value must not exceed "@ + decimal_text(MAX_BYTES as nat) + " bytes"@
                    }),
            },
            r is Ok <==> bounded_text(value@, MAX_BYTES as nat),
    {
        if value.is_empty() {
            return Err(String::from_str("value must not be empty"));
        }
        if value.as_bytes().len() > MAX_BYTES {
            let mut message = String::from_str("value must not exceed ");
            let limit = u64_text(MAX_BYTES as u64);
            message.append(limit.as_str());
            message.append(" bytes");
            return Err(message);
        }
        let owned = String::from_str(value);
        Ok(BoundedText(owned))
    }

    /// The text.
    pub fn as_str(&self) -> (r: &str)
        ensures
            r@ == self@,
            bounded_text(r@, MAX_BYTES as nat),
    {
        proof { use_type_invariant(self); }
        self.0.as_str()
    }
}


/// The arguments that locate one message.
#[derive(Debug)]
pub struct MessageLocatorArgs {
    account: BoundedText<MAX_ACCOUNT_BYTES>,
    mailbox: BoundedText<MAX_MAILBOX_BYTES>,
    id: u64,
}

/// The model of a message locator.
pub struct LocatorModel {
    pub account: Seq<char>,
    pub mailbox: Seq<char>,
    pub id: u64,
}

impl View for MessageLocatorArgs {
    type V = LocatorModel;

    closed spec fn view(&self) -> LocatorModel {
        LocatorModel { account: self.account@, mailbox: self.mailbox@, id: self.id }
    }
}

impl MessageLocatorArgs {
    pub fn account(&self) -> (r: &str)
        ensures
            r@ == self@.account,
            bounded_text(r@, MAX_ACCOUNT_BYTES as nat),
    {
        self.account.as_str()
    }

    pub fn mailbox(&self) -> (r: &str)
        ensures
            r@ == self@.mailbox,
            bounded_text(r@, MAX_MAILBOX_BYTES as nat),
    {
        self.mailbox.as_str()
    }

    pub fn id(&self) -> (r: u64)
        ensures
            r == self@.id,
    {
        self.id
    }
}

/// The arguments of `mailboxes`.
#[derive(Debug)]
pub struct MailboxesArgs {
    account: BoundedText<MAX_ACCOUNT_BYTES>,
}

pub struct MailboxesModel {
    pub account: Seq<char>,
}

impl View for MailboxesArgs {
    type V = MailboxesModel;

    closed spec fn view(&self) -> MailboxesModel {
        MailboxesModel { account: self.account@ }
    }
}

impl MailboxesArgs {
    pub fn account(&self) -> (r: &str)
        ensures
            r@ == self@.account,
            bounded_text(r@, MAX_ACCOUNT_BYTES as nat),
    {
        self.account.as_str()
    }
}

/// The view of an optional bounded text.
pub open spec fn optional_text<const N: usize>(t: Option<BoundedText<N>>) -> Option<Seq<char>> {
    match t {
        Some(t) => Some(t@),
        None => None,
    }
}

fn optional_str<const N: usize>(t: &Option<BoundedText<N>>) -> (r: Option<&str>)
    ensures
        match r {
            Some(s) => optional_text(*t) == Some(s@) && bounded_text(s@, N as nat),
            None => optional_text(*t) is None,
        },
{
    match t {
        Some(t) => Some(t.as_str()),
        None => None,
    }
}

/// True for a message limit that `unread` and `search` accept.
pub open spec fn limit_in_range(limit: u16) -> bool {
    1 <= limit <= MAX_LIMIT
}

/// The arguments of `unread`.
#[derive(Debug)]
pub struct UnreadArgs {
    account: Option<BoundedText<MAX_ACCOUNT_BYTES>>,
    limit: u16,
}

pub struct UnreadModel {
    pub account: Option<Seq<char>>,
    pub limit: u16,
}

impl View for UnreadArgs {
    type V = UnreadModel;

    closed spec fn view(&self) -> UnreadModel {
        UnreadModel { account: optional_text(self.account), limit: self.limit }
    }
}

impl UnreadArgs {
    #[verifier::type_invariant]
    closed spec fn inv(self) -> bool {
        limit_in_range(self.limit)
    }

    pub fn account(&self) -> (r: Option<&str>)
        ensures
            match r {
                Some(s) => self@.account == Some(s@) && bounded_text(s@, MAX_ACCOUNT_BYTES as nat),
                None => self@.account is None,
            },
    {
        optional_str(&self.account)
    }

    pub fn limit(&self) -> (r: u16)
        ensures
            r == self@.limit,
            limit_in_range(r),
    {
        proof { use_type_invariant(self); }
        self.limit
    }
}

/// The arguments of `search`.
#[derive(Debug)]
pub struct SearchArgs {
    query: BoundedText<MAX_QUERY_BYTES>,
    account: Option<BoundedText<MAX_ACCOUNT_BYTES>>,
    mailbox: Option<BoundedText<MAX_MAILBOX_BYTES>>,
    limit: u16,
}

pub struct SearchModel {
    pub query: Seq<char>,
    pub account: Option<Seq<char>>,
    pub mailbox: Option<Seq<char>>,
    pub limit: u16,
}

impl View for SearchArgs {
    type V = SearchModel;

    closed spec fn view(&self) -> SearchModel {
        SearchModel {
            query: self.query@,
            account: optional_text(self.account),
            mailbox: optional_text(self.mailbox),
            limit: self.limit,
        }
    }
}

impl SearchArgs {
    #[verifier::type_invariant]
    closed spec fn inv(self) -> bool {
        &&& limit_in_range(self.limit)
        &&& self.mailbox is Some ==> self.account is Some
    }

    pub fn query(&self) -> (r: &str)
        ensures
            r@ == self@.query,
            bounded_text(r@, MAX_QUERY_BYTES as nat),
    {
        self.query.as_str()
    }

    pub fn account(&self) -> (r: Option<&str>)
        ensures
            match r {
                Some(s) => self@.account == Some(s@) && bounded_text(s@, MAX_ACCOUNT_BYTES as nat),
                None => self@.account is None,
            },
    {
        optional_str(&self.account)
    }

    /// The mailbox scope; present only together with an account.
    pub fn mailbox(&self) -> (r: Option<&str>)
        ensures
            match r {
                Some(s) => self@.mailbox == Some(s@) && bounded_text(s@, MAX_MAILBOX_BYTES as nat)
                    && self@.account is Some,
                None => self@.mailbox is None,
            },
    {
        proof { use_type_invariant(self); }
        optional_str(&self.mailbox)
    }

    pub fn limit(&self) -> (r: u16)
        ensures
            r == self@.limit,
            limit_in_range(r),
    {
        proof { use_type_invariant(self); }
        self.limit
    }
}

/// True for a body bound that `get --max-body-bytes` accepts.
pub open spec fn body_bound_in_range(bound: u32) -> bool {
    1 <= bound <= MAX_BODY_BYTES_BOUND
}

/// The arguments of `get`.
#[derive(Debug)]
pub struct GetArgs {
    locator: MessageLocatorArgs,
    include_body: bool,
    max_body_bytes: Option<u32>,
}

pub struct GetModel {
    pub locator: LocatorModel,
    pub include_body: bool,
    pub max_body_bytes: Option<u32>,
}

impl View for GetArgs {
    type V = GetModel;

    closed spec fn view(&self) -> GetModel {
        GetModel {
            locator: self.locator@,
            include_body: self.include_body,
            max_body_bytes: self.max_body_bytes,
        }
    }
}

/// The body bound that a `get` command carries to Mail: none without body
/// access, else the bound given or the default one.
pub open spec fn effective_body_bound(include_body: bool, max_body_bytes: Option<u32>) -> Option<u32> {
    if include_body {
        Some(
            match max_body_bytes {
                Some(bound) => bound,
                None => DEFAULT_MAX_BODY_BYTES,
            },
        )
    } else {
        None
    }
}

impl GetArgs {
    #[verifier::type_invariant]
    closed spec fn inv(self) -> bool {
        self.max_body_bytes matches Some(bound) ==> body_bound_in_range(bound) && self.include_body
    }

    pub fn locator(&self) -> (r: &MessageLocatorArgs)
        ensures
            r@ == self@.locator,
    {
        &self.locator
    }

    pub fn include_body(&self) -> (r: bool)
        ensures
            r == self@.include_body,
    {
        self.include_body
    }

    /// The bound on the body to read: `None` unless the body was asked for.
    pub fn max_body_bytes(&self) -> (r: Option<u32>)
        ensures
            r == effective_body_bound(self@.include_body, self@.max_body_bytes),
            r matches Some(bound) ==> body_bound_in_range(bound),
    {
        proof { use_type_invariant(self); }
        if self.include_body {
            match self.max_body_bytes {
                Some(bound) => Some(bound),
                None => Some(DEFAULT_MAX_BODY_BYTES),
            }
        } else {
            None
        }
    }
}

/// The arguments of `mark-read`.
#[derive(Debug)]
pub struct MarkReadArgs {
    locator: MessageLocatorArgs,
    execute: bool,
}

pub struct MarkReadModel {
    pub locator: LocatorModel,
    pub execute: bool,
}

impl View for MarkReadArgs {
    type V = MarkReadModel;

    closed spec fn view(&self) -> MarkReadModel {
        MarkReadModel { locator: self.locator@, execute: self.execute }
    }
}

impl MarkReadArgs {
    pub fn locator(&self) -> (r: &MessageLocatorArgs)
        ensures
            r@ == self@.locator,
    {
        &self.locator
    }

    pub fn execute(&self) -> (r: bool)
        ensures
            r == self@.execute,
    {
        self.execute
    }
}

/// The arguments of `move`.
#[derive(Debug)]
pub struct MoveArgs {
    locator: MessageLocatorArgs,
    destination: BoundedText<MAX_MAILBOX_BYTES>,
    execute: bool,
}

pub struct MoveModel {
    pub locator: LocatorModel,
    pub destination: Seq<char>,
    pub execute: bool,
}

impl View for MoveArgs {
    type V = MoveModel;

    closed spec fn view(&self) -> MoveModel {
        MoveModel { locator: self.locator@, destination: self.destination@, execute: self.execute }
    }
}

impl MoveArgs {
    pub fn locator(&self) -> (r: &MessageLocatorArgs)
        ensures
            r@ == self@.locator,
    {
        &self.locator
    }

    pub fn destination(&self) -> (r: &str)
        ensures
            r@ == self@.destination,
            bounded_text(r@, MAX_MAILBOX_BYTES as nat),
    {
        self.destination.as_str()
    }

    pub fn execute(&self) -> (r: bool)
        ensures
            r == self@.execute,
    {
        self.execute
    }
}

/// A command of the command line.
#[derive(Debug)]
pub enum Command {
    /// List every account configured in Apple Mail.
    Accounts,
    /// List mailbox paths for one account.
    Mailboxes(MailboxesArgs),
    /// List unread messages in the aggregate inbox.
    Unread(UnreadArgs),
    /// Search sender and subject in an inbox or mailbox.
    Search(SearchArgs),
    /// Get one message. The body is omitted unless explicitly requested.
    Get(GetArgs),
    /// Preview marking one located message as read.
    MarkRead(MarkReadArgs),
    /// Preview moving one located message within the same account.
    Move(MoveArgs),
}

/// The model of a command.
pub enum CommandModel {
    Accounts,
    Mailboxes(MailboxesModel),
    Unread(UnreadModel),
    Search(SearchModel),
    Get(GetModel),
    MarkRead(MarkReadModel),
    Move(MoveModel),
}

impl View for Command {
    type V = CommandModel;

    open spec fn view(&self) -> CommandModel {
        match self {
            Command::Accounts => CommandModel::Accounts,
            Command::Mailboxes(args) => CommandModel::Mailboxes(args@),
            Command::Unread(args) => CommandModel::Unread(args@),
            Command::Search(args) => CommandModel::Search(args@),
            Command::Get(args) => CommandModel::Get(args@),
            Command::MarkRead(args) => CommandModel::MarkRead(args@),
            Command::Move(args) => CommandModel::Move(args@),
        }
    }
}

/// A parsed command line.
#[derive(Debug)]
pub struct Cli {
    command: Command,
}

impl View for Cli {
    type V = CommandModel;

    closed spec fn view(&self) -> CommandModel {
        self.command@
    }
}

impl Cli {
    pub fn command(&self) -> (r: &Command)
        ensures
            r@ == self@,
    {
        &self.command
    }
}


/// The kinds of error that the command-line parser reports.
#[derive(Debug, Clone, Copy, PartialEq, Eq, Structural)]
pub enum ErrorKind {
    /// `--help`, `-h` or `help` was given.
    DisplayHelp,
    /// `--version` or `-V` was given.
    DisplayVersion,
    /// No command was given.
    DisplayHelpOnMissingArgumentOrSubcommand,
    /// The first argument names no command.
    InvalidSubcommand,
    /// An argument that the command does not take.
    UnknownArgument,
    /// A value attached to a flag that takes none.
    TooManyValues,
    /// An option without its value.
    InvalidValue,
    /// An option or flag given twice.
    ArgumentConflict,
    /// A value that its argument refuses.
    ValueValidation,
    /// A required argument is missing, or an argument lacks the one it needs.
    MissingRequiredArgument,
}

/// A command line that does not parse.
#[derive(Debug)]
pub struct ArgsError {
    kind: ErrorKind,
}

impl View for ArgsError {
    type V = ErrorKind;

    closed spec fn view(&self) -> ErrorKind {
        self.kind
    }
}

impl ArgsError {
    pub fn kind(&self) -> (r: ErrorKind)
        ensures
            r == self@,
    {
        self.kind
    }
}

/// The commands.
#[derive(Clone, Copy, PartialEq, Eq, Structural)]
pub enum Subcommand {
    Accounts,
    Mailboxes,
    Unread,
    Search,
    Get,
    MarkRead,
    Move,
}

/// The options that take a value.
#[derive(Clone, Copy, PartialEq, Eq, Structural)]
pub enum OptionName {
    Account,
    Mailbox,
    Id,
    Destination,
    Limit,
    MaxBodyBytes,
}

/// The flags that take no value.
#[derive(Clone, Copy, PartialEq, Eq, Structural)]
pub enum FlagName {
    Execute,
    IncludeBody,
}

/// What the parser has gathered after some arguments of a command.
pub struct ScanState {
    pub account: Option<Seq<char>>,
    pub mailbox: Option<Seq<char>>,
    pub id: Option<Seq<char>>,
    pub destination: Option<Seq<char>>,
    pub limit: Option<Seq<char>>,
    pub max_body_bytes: Option<Seq<char>>,
    pub query: Option<Seq<char>>,
    pub execute: bool,
    pub include_body: bool,
    /// The argument before consumed the next one as its value.
    pub skip_next: bool,
    /// `--` was seen: every later argument is a positional value.
    pub escaped: bool,
}

/// The state before any argument of a command.
pub open spec fn initial_scan() -> ScanState {
    ScanState {
        account: None,
        mailbox: None,
        id: None,
        destination: None,
        limit: None,
        max_body_bytes: None,
        query: None,
        execute: false,
        include_body: false,
        skip_next: false,
        escaped: false,
    }
}

/// The texts of the arguments.
pub open spec fn arg_views(args: Seq<&str>) -> Seq<Seq<char>> {
    args.map_values(|a: &str| a@)
}

/// The command that a name denotes.
pub open spec fn subcommand_named(name: Seq<char>) -> Option<Subcommand> {
    if name == "accounts"@ {
        Some(Subcommand::Accounts)
    } else if name == "mailboxes"@ {
        Some(Subcommand::Mailboxes)
    } else if name == "unread"@ {
        Some(Subcommand::Unread)
    } else if name == "search"@ {
        Some(Subcommand::Search)
    } else if name == "get"@ {
        Some(Subcommand::Get)
    } else if name == "mark-read"@ {
        Some(Subcommand::MarkRead)
    } else if name == "move"@ {
        Some(Subcommand::Move)
    } else {
        None
    }
}

/// True for the commands that locate one message.
pub open spec fn locates_message(sub: Subcommand) -> bool {
    sub == Subcommand::Get || sub == Subcommand::MarkRead || sub == Subcommand::Move
}

/// The option of `sub` that `--name` denotes.
pub open spec fn option_named(sub: Subcommand, name: Seq<char>) -> Option<OptionName> {
    if name == "account"@ && sub != Subcommand::Accounts {
        Some(OptionName::Account)
    } else if name == "mailbox"@ && (sub == Subcommand::Search || locates_message(sub)) {
        Some(OptionName::Mailbox)
    } else if name == "id"@ && locates_message(sub) {
        Some(OptionName::Id)
    } else if name == "to"@ && sub == Subcommand::Move {
        Some(OptionName::Destination)
    } else if name == "limit"@ && (sub == Subcommand::Unread || sub == Subcommand::Search) {
        Some(OptionName::Limit)
    } else if name == "max-body-bytes"@ && sub == Subcommand::Get {
        Some(OptionName::MaxBodyBytes)
    } else {
        None
    }
}

/// The flag of `sub` that `--name` denotes.
pub open spec fn flag_named(sub: Subcommand, name: Seq<char>) -> Option<FlagName> {
    if name == "execute"@ && (sub == Subcommand::MarkRead || sub == Subcommand::Move) {
        Some(FlagName::Execute)
    } else if name == "include-body"@ && sub == Subcommand::Get {
        Some(FlagName::IncludeBody)
    } else {
        None
    }
}

/// True when a decimal text denotes a number in `1..=max`.
pub open spec fn positive_at_most(v: Seq<char>, max: nat) -> bool {
    bounded_decimal(v, max) matches Some(x) && x >= 1
}

/// True for a value that an option accepts.
pub open spec fn value_ok(o: OptionName, v: Seq<char>) -> bool {
    match o {
        OptionName::Account => bounded_text(v, MAX_ACCOUNT_BYTES as nat),
        OptionName::Mailbox => bounded_text(v, MAX_MAILBOX_BYTES as nat),
        OptionName::Destination => bounded_text(v, MAX_MAILBOX_BYTES as nat),
        OptionName::Id => bounded_decimal(v, u64::MAX as nat) is Some,
        OptionName::Limit => positive_at_most(v, MAX_LIMIT as nat),
        OptionName::MaxBodyBytes => positive_at_most(v, MAX_BODY_BYTES_BOUND as nat),
    }
}

pub open spec fn option_value(s: ScanState, o: OptionName) -> Option<Seq<char>> {
    match o {
        OptionName::Account => s.account,
        OptionName::Mailbox => s.mailbox,
        OptionName::Id => s.id,
        OptionName::Destination => s.destination,
        OptionName::Limit => s.limit,
        OptionName::MaxBodyBytes => s.max_body_bytes,
    }
}

pub open spec fn with_option(s: ScanState, o: OptionName, v: Seq<char>) -> ScanState {
    match o {
        OptionName::Account => ScanState { account: Some(v), ..s },
        OptionName::Mailbox => ScanState { mailbox: Some(v), ..s },
        OptionName::Id => ScanState { id: Some(v), ..s },
        OptionName::Destination => ScanState { destination: Some(v), ..s },
        OptionName::Limit => ScanState { limit: Some(v), ..s },
        OptionName::MaxBodyBytes => ScanState { max_body_bytes: Some(v), ..s },
    }
}

pub open spec fn flag_value(s: ScanState, f: FlagName) -> bool {
    match f {
        FlagName::Execute => s.execute,
        FlagName::IncludeBody => s.include_body,
    }
}

pub open spec fn with_flag(s: ScanState, f: FlagName) -> ScanState {
    match f {
        FlagName::Execute => ScanState { execute: true, ..s },
        FlagName::IncludeBody => ScanState { include_body: true, ..s },
    }
}

/// `--`: the end of options.
pub open spec fn is_escape(a: Seq<char>) -> bool {
    a.len() == 2 && a[0] == '-' && a[1] == '-'
}

/// `--name` or `--name=value`.
pub open spec fn is_long(a: Seq<char>) -> bool {
    a.len() > 2 && a[0] == '-' && a[1] == '-'
}

/// `-x...`.
pub open spec fn is_short(a: Seq<char>) -> bool {
    a.len() > 1 && a[0] == '-' && a[1] != '-'
}

/// True for an argument that may serve as the value of the option before
/// it: `-` itself, or anything that does not start with `-`.
pub open spec fn can_be_value(a: Seq<char>) -> bool {
    !(a.len() > 1 && a[0] == '-')
}

/// The position of the first `c` in `s`.
pub open spec fn first_index_of(s: Seq<char>, c: char) -> Option<int> {
    if exists|k: int| 0 <= k < s.len() && s[k] == c {
        Some(
            choose|k: int|
                0 <= k < s.len() && s[k] == c && forall|j: int| 0 <= j < k ==> s[j] != c,
        )
    } else {
        None
    }
}

/// The name of a long argument: what follows `--`, up to the first `=`.
pub open spec fn long_name(a: Seq<char>) -> Seq<char> {
    let body = a.subrange(2, a.len() as int);
    match first_index_of(body, '=') {
        Some(k) => body.take(k),
        None => body,
    }
}

/// The value attached to a long argument after its first `=`.
pub open spec fn long_value(a: Seq<char>) -> Option<Seq<char>> {
    let body = a.subrange(2, a.len() as int);
    match first_index_of(body, '=') {
        Some(k) => Some(body.skip(k + 1)),
        None => None,
    }
}

/// What the argument at position `i` does to the state of command `sub`.
pub open spec fn scan_step(sub: Subcommand, args: Seq<Seq<char>>, i: int, s: ScanState) -> Result<
    ScanState,
    ErrorKind,
> {
    let a = args[i];
    if s.skip_next {
        Ok(ScanState { skip_next: false, ..s })
    } else if !s.escaped && is_escape(a) {
        Ok(ScanState { escaped: true, ..s })
    } else if !s.escaped && is_long(a) {
        let name = long_name(a);
        let inline = long_value(a);
        if name == "help"@ {
            if inline is Some {
                Err(ErrorKind::TooManyValues)
            } else {
                Err(ErrorKind::DisplayHelp)
            }
        } else {
            match flag_named(sub, name) {
                Some(f) => if inline is Some {
                    Err(ErrorKind::TooManyValues)
                } else if flag_value(s, f) {
                    Err(ErrorKind::ArgumentConflict)
                } else {
                    Ok(with_flag(s, f))
                },
                None => match option_named(sub, name) {
                    None => Err(ErrorKind::UnknownArgument),
                    Some(o) => {
                        let takes_next = inline is None && i + 1 < args.len() && can_be_value(
                            args[i + 1],
                        );
                        let value = if inline is Some {
                            inline
                        } else if takes_next {
                            Some(args[i + 1])
                        } else {
                            None
                        };
                        match value {
                            None => Err(ErrorKind::InvalidValue),
                            Some(v) => if option_value(s, o) is Some {
                                Err(ErrorKind::ArgumentConflict)
                            } else if !value_ok(o, v) {
                                Err(ErrorKind::ValueValidation)
                            } else {
                                Ok(with_option(ScanState { skip_next: takes_next, ..s }, o, v))
                            },
                        }
                    },
                },
            }
        }
    } else if !s.escaped && is_short(a) {
        if a[1] == 'h' {
            Err(ErrorKind::DisplayHelp)
        } else {
            Err(ErrorKind::UnknownArgument)
        }
    } else if sub == Subcommand::Search && s.query is None {
        if bounded_text(a, MAX_QUERY_BYTES as nat) {
            Ok(ScanState { query: Some(a), ..s })
        } else {
            Err(ErrorKind::ValueValidation)
        }
    } else {
        Err(ErrorKind::UnknownArgument)
    }
}

/// The state after the arguments before position `n`, the first two (the
/// program and the command) left out, or the first error among them.
pub open spec fn scan(sub: Subcommand, args: Seq<Seq<char>>, n: int) -> Result<ScanState, ErrorKind>
    decreases n,
{
    if n <= 2 {
        Ok(initial_scan())
    } else {
        match scan(sub, args, n - 1) {
            Ok(s) => scan_step(sub, args, n - 1, s),
            Err(e) => Err(e),
        }
    }
}

/// The number that a validated decimal text denotes.
pub open spec fn number_of(v: Seq<char>) -> nat {
    match crate::text::decimal_value(v) {
        Some(x) => x,
        None => 0,
    }
}

pub open spec fn locator_of(s: ScanState) -> LocatorModel {
    LocatorModel {
        account: s.account->Some_0,
        mailbox: s.mailbox->Some_0,
        id: number_of(s.id->Some_0) as u64,
    }
}

pub open spec fn has_locator(s: ScanState) -> bool {
    s.account is Some && s.mailbox is Some && s.id is Some
}

/// The command that the gathered arguments make, or the missing argument.
pub open spec fn finish(sub: Subcommand, s: ScanState) -> Result<CommandModel, ErrorKind> {
    let limit = match s.limit {
        Some(t) => number_of(t) as u16,
        None => DEFAULT_LIMIT,
    };
    match sub {
        Subcommand::Accounts => Ok(CommandModel::Accounts),
        Subcommand::Mailboxes => match s.account {
            Some(account) => Ok(CommandModel::Mailboxes(MailboxesModel { account })),
            None => Err(ErrorKind::MissingRequiredArgument),
        },
        Subcommand::Unread => Ok(CommandModel::Unread(UnreadModel { account: s.account, limit })),
        Subcommand::Search => if s.query is None || (s.mailbox is Some && s.account is None) {
            Err(ErrorKind::MissingRequiredArgument)
        } else {
            Ok(
                CommandModel::Search(
                    SearchModel {
                        query: s.query->Some_0,
                        account: s.account,
                        mailbox: s.mailbox,
                        limit,
                    },
                ),
            )
        },
        Subcommand::Get => if !has_locator(s) || (s.max_body_bytes is Some && !s.include_body) {
            Err(ErrorKind::MissingRequiredArgument)
        } else {
            Ok(
                CommandModel::Get(
                    GetModel {
                        locator: locator_of(s),
                        include_body: s.include_body,
                        max_body_bytes: match s.max_body_bytes {
                            Some(t) => Some(number_of(t) as u32),
                            None => None,
                        },
                    },
                ),
            )
        },
        Subcommand::MarkRead => if !has_locator(s) {
            Err(ErrorKind::MissingRequiredArgument)
        } else {
            Ok(CommandModel::MarkRead(MarkReadModel { locator: locator_of(s), execute: s.execute }))
        },
        Subcommand::Move => if !has_locator(s) || s.destination is None {
            Err(ErrorKind::MissingRequiredArgument)
        } else {
            Ok(
                CommandModel::Move(
                    MoveModel {
                        locator: locator_of(s),
                        destination: s.destination->Some_0,
                        execute: s.execute,
                    },
                ),
            )
        },
    }
}

/// The error that a first argument which names no command gives.
pub open spec fn top_level_error(a: Seq<char>) -> ErrorKind {
    if a == "help"@ {
        ErrorKind::DisplayHelp
    } else if is_long(a) {
        if long_name(a) == "help"@ || long_name(a) == "version"@ {
            if long_value(a) is Some {
                ErrorKind::TooManyValues
            } else if long_name(a) == "help"@ {
                ErrorKind::DisplayHelp
            } else {
                ErrorKind::DisplayVersion
            }
        } else {
            ErrorKind::UnknownArgument
        }
    } else if is_escape(a) {
        ErrorKind::UnknownArgument
    } else if is_short(a) {
        if a[1] == 'h' {
            ErrorKind::DisplayHelp
        } else if a[1] == 'V' {
            ErrorKind::DisplayVersion
        } else {
            ErrorKind::UnknownArgument
        }
    } else {
        ErrorKind::InvalidSubcommand
    }
}

/// The meaning of a command line: the program name, a command, then its
/// arguments.
pub open spec fn parse_command_line(args: Seq<Seq<char>>) -> Result<CommandModel, ErrorKind> {
    if args.len() < 2 {
        Err(ErrorKind::DisplayHelpOnMissingArgumentOrSubcommand)
    } else {
        match subcommand_named(args[1]) {
            Some(sub) => match scan(sub, args, args.len() as int) {
                Ok(s) => finish(sub, s),
                Err(e) => Err(e),
            },
            None => Err(top_level_error(args[1])),
        }
    }
}


/// What the parser has gathered, as borrowed texts.
struct Collected<'a> {
    account: Option<&'a str>,
    mailbox: Option<&'a str>,
    id: Option<&'a str>,
    destination: Option<&'a str>,
    limit: Option<&'a str>,
    max_body_bytes: Option<&'a str>,
    query: Option<&'a str>,
    execute: bool,
    include_body: bool,
    skip_next: bool,
    escaped: bool,
}

pub open spec fn optional_view(o: Option<&str>) -> Option<Seq<char>> {
    match o {
        Some(s) => Some(s@),
        None => None,
    }
}

impl<'a> View for Collected<'a> {
    type V = ScanState;

    closed spec fn view(&self) -> ScanState {
        ScanState {
            account: optional_view(self.account),
            mailbox: optional_view(self.mailbox),
            id: optional_view(self.id),
            destination: optional_view(self.destination),
            limit: optional_view(self.limit),
            max_body_bytes: optional_view(self.max_body_bytes),
            query: optional_view(self.query),
            execute: self.execute,
            include_body: self.include_body,
            skip_next: self.skip_next,
            escaped: self.escaped,
        }
    }
}

impl<'a> Collected<'a> {
    fn new() -> (r: Collected<'a>)
        ensures
            r@ == initial_scan(),
    {
        Collected {
            account: None,
            mailbox: None,
            id: None,
            destination: None,
            limit: None,
            max_body_bytes: None,
            query: None,
            execute: false,
            include_body: false,
            skip_next: false,
            escaped: false,
        }
    }

    fn has_option(&self, o: OptionName) -> (r: bool)
        ensures
            r == (option_value(self@, o) is Some),
    {
        match o {
            OptionName::Account => self.account.is_some(),
            OptionName::Mailbox => self.mailbox.is_some(),
            OptionName::Id => self.id.is_some(),
            OptionName::Destination => self.destination.is_some(),
            OptionName::Limit => self.limit.is_some(),
            OptionName::MaxBodyBytes => self.max_body_bytes.is_some(),
        }
    }

    fn set_option(&mut self, o: OptionName, v: &'a str)
        ensures
            final(self)@ == with_option(old(self)@, o, v@),
    {
        match o {
            OptionName::Account => { self.account = Some(v); },
            OptionName::Mailbox => { self.mailbox = Some(v); },
            OptionName::Id => { self.id = Some(v); },
            OptionName::Destination => { self.destination = Some(v); },
            OptionName::Limit => { self.limit = Some(v); },
            OptionName::MaxBodyBytes => { self.max_body_bytes = Some(v); },
        }
    }

    fn has_flag(&self, f: FlagName) -> (r: bool)
        ensures
            r == flag_value(self@, f),
    {
        match f {
            FlagName::Execute => self.execute,
            FlagName::IncludeBody => self.include_body,
        }
    }

    fn set_flag(&mut self, f: FlagName)
        ensures
            final(self)@ == with_flag(old(self)@, f),
    {
        match f {
            FlagName::Execute => { self.execute = true; },
            FlagName::IncludeBody => { self.include_body = true; },
        }
    }
}

fn find_equals(body: &str) -> (r: Option<usize>)
    ensures
        match r {
            Some(k) => first_index_of(body@, '=') == Some(k as int) && k < body@.len(),
            None => first_index_of(body@, '=') is None,
        },
{
    let n = body.unicode_len();
    let mut i: usize = 0;
    while i < n
        invariant
            n == body@.len(),
            i <= n,
            forall|j: int| 0 <= j < i ==> body@[j] != '=',
        decreases n - i,
    {
        if body.get_char(i) == '=' {
            let ghost k = choose|k: int|
                0 <= k < body@.len() && body@[k] == '=' && forall|j: int| 0 <= j < k ==> body@[j] != '=';
            assert(0 <= i < body@.len() && body@[i as int] == '=');
            assert(k == i) by {
                if k < i {
                } else if k > i {
                    assert(body@[i as int] != '=');
                }
            }
            return Some(i);
        }
        i = i + 1;
    }
    None
}

fn split_long<'a>(a: &'a str) -> (r: (&'a str, Option<&'a str>))
    requires
        is_long(a@),
    ensures
        r.0@ == long_name(a@),
        optional_view(r.1) == long_value(a@),
{
    let n = a.unicode_len();
    let body = a.substring_char(2, n);
    match find_equals(body) {
        Some(k) => {
            let m = body.unicode_len();
            let name = body.substring_char(0, k);
            let value = body.substring_char(k + 1, m);
            assert(name@ =~= body@.take(k as int));
            assert(value@ =~= body@.skip(k + 1));
            (name, Some(value))
        },
        None => (body, None),
    }
}

fn subcommand_of(name: &str) -> (r: Option<Subcommand>)
    ensures
        r == subcommand_named(name@),
{
    if same_text(name, "accounts") {
        Some(Subcommand::Accounts)
    } else if same_text(name, "mailboxes") {
        Some(Subcommand::Mailboxes)
    } else if same_text(name, "unread") {
        Some(Subcommand::Unread)
    } else if same_text(name, "search") {
        Some(Subcommand::Search)
    } else if same_text(name, "get") {
        Some(Subcommand::Get)
    } else if same_text(name, "mark-read") {
        Some(Subcommand::MarkRead)
    } else if same_text(name, "move") {
        Some(Subcommand::Move)
    } else {
        None
    }
}

fn locates(sub: Subcommand) -> (r: bool)
    ensures
        r == locates_message(sub),
{
    match sub {
        Subcommand::Get | Subcommand::MarkRead | Subcommand::Move => true,
        _ => false,
    }
}

fn option_of(sub: Subcommand, name: &str) -> (r: Option<OptionName>)
    ensures
        r == option_named(sub, name@),
{
    let is_accounts = match sub {
        Subcommand::Accounts => true,
        _ => false,
    };
    let is_search = match sub {
        Subcommand::Search => true,
        _ => false,
    };
    let is_unread = match sub {
        Subcommand::Unread => true,
        _ => false,
    };
    let is_get = match sub {
        Subcommand::Get => true,
        _ => false,
    };
    let is_move = match sub {
        Subcommand::Move => true,
        _ => false,
    };
    if same_text(name, "account") && !is_accounts {
        Some(OptionName::Account)
    } else if same_text(name, "mailbox") && (is_search || locates(sub)) {
        Some(OptionName::Mailbox)
    } else if same_text(name, "id") && locates(sub) {
        Some(OptionName::Id)
    } else if same_text(name, "to") && is_move {
        Some(OptionName::Destination)
    } else if same_text(name, "limit") && (is_unread || is_search) {
        Some(OptionName::Limit)
    } else if same_text(name, "max-body-bytes") && is_get {
        Some(OptionName::MaxBodyBytes)
    } else {
        None
    }
}

fn flag_of(sub: Subcommand, name: &str) -> (r: Option<FlagName>)
    ensures
        r == flag_named(sub, name@),
{
    let is_mutation = match sub {
        Subcommand::MarkRead | Subcommand::Move => true,
        _ => false,
    };
    let is_get = match sub {
        Subcommand::Get => true,
        _ => false,
    };
    if same_text(name, "execute") && is_mutation {
        Some(FlagName::Execute)
    } else if same_text(name, "include-body") && is_get {
        Some(FlagName::IncludeBody)
    } else {
        None
    }
}

fn fits(v: &str, max_bytes: usize) -> (r: bool)
    ensures
        r == bounded_text(v@, max_bytes as nat),
{
    !v.is_empty() && v.as_bytes().len() <= max_bytes
}

fn positive_at_most_exec(v: &str, max: u64) -> (r: bool)
    ensures
        r == positive_at_most(v@, max as nat),
{
    match parse_bounded_decimal(v, max) {
        Some(x) => x >= 1,
        None => false,
    }
}

fn accepts_value(o: OptionName, v: &str) -> (r: bool)
    ensures
        r == value_ok(o, v@),
{
    match o {
        OptionName::Account => fits(v, MAX_ACCOUNT_BYTES),
        OptionName::Mailbox => fits(v, MAX_MAILBOX_BYTES),
        OptionName::Destination => fits(v, MAX_MAILBOX_BYTES),
        OptionName::Id => parse_bounded_decimal(v, u64::MAX).is_some(),
        OptionName::Limit => positive_at_most_exec(v, MAX_LIMIT as u64),
        OptionName::MaxBodyBytes => positive_at_most_exec(v, MAX_BODY_BYTES_BOUND as u64),
    }
}

fn scan_step_exec<'a>(sub: Subcommand, args: &[&'a str], i: usize, s: Collected<'a>) -> (r: Result<
    Collected<'a>,
    ErrorKind,
>)
    requires
        i < args@.len(),
    ensures
        match r {
            Ok(t) => scan_step(sub, arg_views(args@), i as int, s@) == Ok::<ScanState, ErrorKind>(t@),
            Err(e) => scan_step(sub, arg_views(args@), i as int, s@) == Err::<ScanState, ErrorKind>(e),
        },
{
    let ghost views = arg_views(args@);
    let a = args[i];
    assert(views[i as int] == a@);
    let mut s = s;
    if s.skip_next {
        s.skip_next = false;
        return Ok(s);
    }
    let n = a.unicode_len();
    let c0 = if n > 0 { a.get_char(0) } else { ' ' };
    let c1 = if n > 1 { a.get_char(1) } else { ' ' };
    if !s.escaped && n == 2 && c0 == '-' && c1 == '-' {
        s.escaped = true;
        return Ok(s);
    }
    if !s.escaped && n > 2 && c0 == '-' && c1 == '-' {
        let (name, inline) = split_long(a);
        if same_text(name, "help") {
            if inline.is_some() {
                return Err(ErrorKind::TooManyValues);
            } else {
                return Err(ErrorKind::DisplayHelp);
            }
        }
        match flag_of(sub, name) {
            Some(f) => {
                if inline.is_some() {
                    return Err(ErrorKind::TooManyValues);
                }
                if s.has_flag(f) {
                    return Err(ErrorKind::ArgumentConflict);
                }
                s.set_flag(f);
                return Ok(s);
            },
            None => {},
        }
        let o = match option_of(sub, name) {
            Some(o) => o,
            None => {
                return Err(ErrorKind::UnknownArgument);
            },
        };
        let mut takes_next = false;
        let value = match inline {
            Some(v) => Some(v),
            None => {
                if i + 1 < args.len() {
                    let next = args[i + 1];
                    assert(views[i + 1] == next@);
                    let m = next.unicode_len();
                    if !(m > 1 && next.get_char(0) == '-') {
                        takes_next = true;
                        Some(next)
                    } else {
                        None
                    }
                } else {
                    None
                }
            },
        };
        let v = match value {
            Some(v) => v,
            None => {
                return Err(ErrorKind::InvalidValue);
            },
        };
        if s.has_option(o) {
            return Err(ErrorKind::ArgumentConflict);
        }
        if !accepts_value(o, v) {
            return Err(ErrorKind::ValueValidation);
        }
        s.skip_next = takes_next;
        s.set_option(o, v);
        return Ok(s);
    }
    if !s.escaped && n > 1 && c0 == '-' && c1 != '-' {
        if c1 == 'h' {
            return Err(ErrorKind::DisplayHelp);
        } else {
            return Err(ErrorKind::UnknownArgument);
        }
    }
    let is_search = match sub {
        Subcommand::Search => true,
        _ => false,
    };
    if is_search && s.query.is_none() {
        if fits(a, MAX_QUERY_BYTES) {
            s.query = Some(a);
            return Ok(s);
        } else {
            return Err(ErrorKind::ValueValidation);
        }
    }
    Err(ErrorKind::UnknownArgument)
}


/// True when every gathered value is one that its argument accepts.
pub open spec fn values_valid(s: ScanState) -> bool {
    &&& s.account matches Some(v) ==> value_ok(OptionName::Account, v)
    &&& s.mailbox matches Some(v) ==> value_ok(OptionName::Mailbox, v)
    &&& s.id matches Some(v) ==> value_ok(OptionName::Id, v)
    &&& s.destination matches Some(v) ==> value_ok(OptionName::Destination, v)
    &&& s.limit matches Some(v) ==> value_ok(OptionName::Limit, v)
    &&& s.max_body_bytes matches Some(v) ==> value_ok(OptionName::MaxBodyBytes, v)
    &&& s.query matches Some(v) ==> bounded_text(v, MAX_QUERY_BYTES as nat)
}

proof fn lemma_step_keeps_values_valid(sub: Subcommand, args: Seq<Seq<char>>, i: int, s: ScanState)
    requires
        0 <= i < args.len(),
        values_valid(s),
        scan_step(sub, args, i, s) is Ok,
    ensures
        values_valid(scan_step(sub, args, i, s)->Ok_0),
{
}

/// The parser never gathers a value that its argument refuses.
pub proof fn lemma_scan_values_valid(sub: Subcommand, args: Seq<Seq<char>>, n: int)
    requires
        n <= args.len(),
        scan(sub, args, n) is Ok,
    ensures
        values_valid(scan(sub, args, n)->Ok_0),
    decreases n,
{
    if n > 2 {
        lemma_scan_values_valid(sub, args, n - 1);
        lemma_step_keeps_values_valid(sub, args, n - 1, scan(sub, args, n - 1)->Ok_0);
    }
}

pub proof fn lemma_scan_error_persists(sub: Subcommand, args: Seq<Seq<char>>, k: int, n: int)
    requires
        k <= n,
        scan(sub, args, k) is Err,
    ensures
        scan(sub, args, n) == scan(sub, args, k),
    decreases n - k,
{
    if n > k {
        lemma_scan_error_persists(sub, args, k, n - 1);
    }
}

impl<const MAX_BYTES: usize> BoundedText<MAX_BYTES> {
    fn from_valid(value: &str) -> (r: Self)
        requires
            bounded_text(value@, MAX_BYTES as nat),
        ensures
            r@ == value@,
    {
        BoundedText(String::from_str(value))
    }
}

fn text_of<const N: usize>(value: Option<&str>) -> (r: Option<BoundedText<N>>)
    requires
        value matches Some(v) ==> bounded_text(v@, N as nat),
    ensures
        optional_text(r) == optional_view(value),
{
    match value {
        Some(v) => Some(BoundedText::from_valid(v)),
        None => None,
    }
}

fn number_from(value: &str, max: u64) -> (r: u64)
    requires
        bounded_decimal(value@, max as nat) is Some,
    ensures
        r as nat == number_of(value@),
        r <= max,
{
    parse_bounded_decimal(value, max).unwrap()
}

fn locator_from(s: &Collected) -> (r: MessageLocatorArgs)
    requires
        has_locator(s@),
        values_valid(s@),
    ensures
        r@ == locator_of(s@),
{
    let account = s.account.unwrap();
    let mailbox = s.mailbox.unwrap();
    let id = s.id.unwrap();
    MessageLocatorArgs {
        account: BoundedText::from_valid(account),
        mailbox: BoundedText::from_valid(mailbox),
        id: number_from(id, u64::MAX),
    }
}

fn finish_exec(sub: Subcommand, s: &Collected) -> (r: Result<Command, ErrorKind>)
    requires
        values_valid(s@),
    ensures
        match r {
            Ok(c) => finish(sub, s@) == Ok::<CommandModel, ErrorKind>(c@),
            Err(e) => finish(sub, s@) == Err::<CommandModel, ErrorKind>(e),
        },
{
    let limit: u16 = match s.limit {
        Some(t) => number_from(t, MAX_LIMIT as u64) as u16,
        None => DEFAULT_LIMIT,
    };
    match sub {
        Subcommand::Accounts => Ok(Command::Accounts),
        Subcommand::Mailboxes => match s.account {
            Some(account) => Ok(
                Command::Mailboxes(MailboxesArgs { account: BoundedText::from_valid(account) }),
            ),
            None => Err(ErrorKind::MissingRequiredArgument),
        },
        Subcommand::Unread => Ok(Command::Unread(UnreadArgs { account: text_of(s.account), limit })),
        Subcommand::Search => {
            if s.query.is_none() || (s.mailbox.is_some() && s.account.is_none()) {
                return Err(ErrorKind::MissingRequiredArgument);
            }
            let query = BoundedText::from_valid(s.query.unwrap());
            Ok(
                Command::Search(
                    SearchArgs {
                        query,
                        account: text_of(s.account),
                        mailbox: text_of(s.mailbox),
                        limit,
                    },
                ),
            )
        },
        Subcommand::Get => {
            if s.account.is_none() || s.mailbox.is_none() || s.id.is_none() || (
            s.max_body_bytes.is_some() && !s.include_body) {
                return Err(ErrorKind::MissingRequiredArgument);
            }
            let max_body_bytes: Option<u32> = match s.max_body_bytes {
                Some(t) => Some(number_from(t, MAX_BODY_BYTES_BOUND as u64) as u32),
                None => None,
            };
            Ok(
                Command::Get(
                    GetArgs {
                        locator: locator_from(s),
                        include_body: s.include_body,
                        max_body_bytes,
                    },
                ),
            )
        },
        Subcommand::MarkRead => {
            if s.account.is_none() || s.mailbox.is_none() || s.id.is_none() {
                return Err(ErrorKind::MissingRequiredArgument);
            }
            Ok(Command::MarkRead(MarkReadArgs { locator: locator_from(s), execute: s.execute }))
        },
        Subcommand::Move => {
            if s.account.is_none() || s.mailbox.is_none() || s.id.is_none()
                || s.destination.is_none() {
                return Err(ErrorKind::MissingRequiredArgument);
            }
            let destination = BoundedText::from_valid(s.destination.unwrap());
            Ok(
                Command::Move(
                    MoveArgs { locator: locator_from(s), destination, execute: s.execute },
                ),
            )
        },
    }
}

fn top_level_error_exec(a: &str) -> (r: ErrorKind)
    ensures
        r == top_level_error(a@),
{
    if same_text(a, "help") {
        return ErrorKind::DisplayHelp;
    }
    let n = a.unicode_len();
    let c0 = if n > 0 { a.get_char(0) } else { ' ' };
    let c1 = if n > 1 { a.get_char(1) } else { ' ' };
    if n > 2 && c0 == '-' && c1 == '-' {
        let (name, inline) = split_long(a);
        let help = same_text(name, "help");
        if help || same_text(name, "version") {
            if inline.is_some() {
                ErrorKind::TooManyValues
            } else if help {
                ErrorKind::DisplayHelp
            } else {
                ErrorKind::DisplayVersion
            }
        } else {
            ErrorKind::UnknownArgument
        }
    } else if n == 2 && c0 == '-' && c1 == '-' {
        ErrorKind::UnknownArgument
    } else if n > 1 && c0 == '-' && c1 != '-' {
        if c1 == 'h' {
            ErrorKind::DisplayHelp
        } else if c1 == 'V' {
            ErrorKind::DisplayVersion
        } else {
            ErrorKind::UnknownArgument
        }
    } else {
        ErrorKind::InvalidSubcommand
    }
}

impl Cli {
    /// Parses a command line: the program name first, then a command and
    /// its arguments.
    pub fn try_parse_from(args: &[&str]) -> (r: Result<Cli, ArgsError>)
        ensures
            match r {
                Ok(cli) => parse_command_line(arg_views(args@)) == Ok::<CommandModel, ErrorKind>(
                    cli@,
                ),
                Err(e) => parse_command_line(arg_views(args@)) == Err::<CommandModel, ErrorKind>(
                    e@,
                ),
            },
    {
        let ghost views = arg_views(args@);
        if args.len() < 2 {
            return Err(ArgsError { kind: ErrorKind::DisplayHelpOnMissingArgumentOrSubcommand });
        }
        let first = args[1];
        assert(views[1] == first@);
        let sub = match subcommand_of(first) {
            Some(sub) => sub,
            None => {
                return Err(ArgsError { kind: top_level_error_exec(first) });
            },
        };
        let mut s = Collected::new();
        let mut i: usize = 2;
        while i < args.len()
            invariant
                2 <= i <= args@.len(),
                views == arg_views(args@),
                views.len() == args@.len(),
                subcommand_named(views[1]) == Some(sub),
                scan(sub, views, i as int) == Ok::<ScanState, ErrorKind>(s@),
                values_valid(s@),
            decreases args@.len() - i,
        {
            match scan_step_exec(sub, args, i, s) {
                Ok(next) => {
                    proof {
                        lemma_step_keeps_values_valid(sub, views, i as int, s@);
                    }
                    s = next;
                },
                Err(e) => {
                    proof {
                        assert(scan(sub, views, i + 1) == Err::<ScanState, ErrorKind>(e));
                        lemma_scan_error_persists(sub, views, i + 1, args@.len() as int);
                        assert(views.len() == args@.len());
                        assert(scan(sub, views, views.len() as int) == Err::<ScanState, ErrorKind>(e));
                    }
                    return Err(ArgsError { kind: e });
                },
            }
            i = i + 1;
        }
        match finish_exec(sub, &s) {
            Ok(command) => Ok(Cli { command }),
            Err(e) => Err(ArgsError { kind: e }),
        }
    }
}

} // verus!
