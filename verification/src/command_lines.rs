//! Command lines written from commands, and the law that the parser reads
//! each of them back as the command it was written from.
use vstd::prelude::*;
use crate::cli::{
    finish, first_index_of, flag_named, initial_scan, is_escape, is_long, is_short, long_name,
    long_value, option_named, option_value, parse_command_line, scan, scan_step,
    subcommand_named, value_ok, with_flag, with_option, FlagName, OptionName, ScanState,
    Subcommand,
};
use crate::laws::{flag_argument, flag_text, within_bounds};
use crate::text::{decimal_text, lemma_decimal_text_value};
use crate::cli::{CommandModel, UnreadModel, SearchModel, GetModel, MarkReadModel, MoveModel, MailboxesModel, LocatorModel, number_of, DEFAULT_LIMIT};

verus! {

/// `--name=value`: an option with its value attached.
pub open spec fn long_arg(name: Seq<char>, value: Seq<char>) -> Seq<char> {
    seq!['-', '-'] + name + seq!['='] + value
}

/// A name that can stand before `=` in an argument: not empty, without `=`,
/// and not `help`.
pub open spec fn plain_name(name: Seq<char>) -> bool {
    &&& name.len() > 0
    &&& forall|j: int| 0 <= j < name.len() ==> name[j] != '='
    &&& name != "help"@
}

proof fn lemma_long_arg(name: Seq<char>, value: Seq<char>)
    requires
        plain_name(name),
    ensures
        is_long(long_arg(name, value)),
        !is_escape(long_arg(name, value)),
        !is_short(long_arg(name, value)),
        long_name(long_arg(name, value)) == name,
        long_value(long_arg(name, value)) == Some(value),
{
    let a = long_arg(name, value);
    let body = a.subrange(2, a.len() as int);
    assert(body =~= name + seq!['='] + value);
    let k = name.len() as int;
    assert(body[k] == '=');
    assert(forall|j: int| 0 <= j < k ==> body[j] == name[j]);
    assert(0 <= k < body.len() && body[k] == '=' && forall|j: int| 0 <= j < k ==> body[j] != '=');
    let k0 = first_index_of(body, '=')->Some_0;
    assert(first_index_of(body, '=') is Some);
    if k0 < k {
        assert(body[k0] == name[k0]);
    }
    assert(k0 == k);
    assert(body.take(k) =~= name);
    assert(body.skip(k + 1) =~= value);
}

proof fn lemma_flag_arg(f: FlagName)
    ensures
        is_long(flag_argument(f)),
        !is_escape(flag_argument(f)),
        long_name(flag_argument(f)) == flag_text(f),
        long_value(flag_argument(f)) is None,
        flag_text(f) != "help"@,
{
    reveal_strlit("execute");
    reveal_strlit("include-body");
    reveal_strlit("help");
    let a = flag_argument(f);
    let body = a.subrange(2, a.len() as int);
    assert(body =~= flag_text(f));
    assert(!(exists|k: int| 0 <= k < body.len() && body[k] == '='));
    assert(flag_text(f).len() != 4);
}

/// One step of the parser over `--name=value`.
proof fn lemma_option_step(
    sub: Subcommand,
    args: Seq<Seq<char>>,
    i: int,
    name: Seq<char>,
    v: Seq<char>,
    o: OptionName,
)
    requires
        2 <= i < args.len(),
        scan(sub, args, i) is Ok,
        !scan(sub, args, i)->Ok_0.skip_next,
        !scan(sub, args, i)->Ok_0.escaped,
        args[i] == long_arg(name, v),
        plain_name(name),
        flag_named(sub, name) is None,
        option_named(sub, name) == Some(o),
        option_value(scan(sub, args, i)->Ok_0, o) is None,
        value_ok(o, v),
    ensures
        scan(sub, args, i + 1) == Ok::<ScanState, crate::cli::ErrorKind>(
            with_option(scan(sub, args, i)->Ok_0, o, v),
        ),
{
    lemma_long_arg(name, v);
    let s = scan(sub, args, i)->Ok_0;
    assert(ScanState { skip_next: false, ..s } == s);
    assert(scan(sub, args, i + 1) == scan_step(sub, args, i, s));
}

/// One step of the parser over a flag.
proof fn lemma_flag_step(sub: Subcommand, args: Seq<Seq<char>>, i: int, f: FlagName)
    requires
        2 <= i < args.len(),
        scan(sub, args, i) is Ok,
        !scan(sub, args, i)->Ok_0.skip_next,
        !scan(sub, args, i)->Ok_0.escaped,
        args[i] == flag_argument(f),
        flag_named(sub, flag_text(f)) == Some(f),
        !crate::cli::flag_value(scan(sub, args, i)->Ok_0, f),
    ensures
        scan(sub, args, i + 1) == Ok::<ScanState, crate::cli::ErrorKind>(
            with_flag(scan(sub, args, i)->Ok_0, f),
        ),
{
    lemma_flag_arg(f);
    let s = scan(sub, args, i)->Ok_0;
    assert(scan(sub, args, i + 1) == scan_step(sub, args, i, s));
}

/// The option `--name=value` for an optional value; nothing when it is absent.
pub open spec fn optional_arg(name: Seq<char>, value: Option<Seq<char>>) -> Seq<Seq<char>> {
    match value {
        Some(v) => seq![long_arg(name, v)],
        None => seq![],
    }
}

/// A flag when it is set; nothing otherwise.
pub open spec fn flag_if(set: bool, f: FlagName) -> Seq<Seq<char>> {
    if set {
        seq![flag_argument(f)]
    } else {
        seq![]
    }
}

/// The options that locate a message.
pub open spec fn locator_args(l: LocatorModel) -> Seq<Seq<char>> {
    seq![
        long_arg("account"@, l.account),
        long_arg("mailbox"@, l.mailbox),
        long_arg("id"@, decimal_text(l.id as nat)),
    ]
}

/// A command line for command `c`, run as `program`: the command's name,
/// then each of its values as an option with the value attached, in base
/// ten for numbers; a search query comes last, after `--`.
pub open spec fn command_line(program: Seq<char>, c: CommandModel) -> Seq<Seq<char>> {
    match c {
        CommandModel::Accounts => seq![program, "accounts"@],
        CommandModel::Mailboxes(a) => seq![program, "mailboxes"@, long_arg("account"@, a.account)],
        CommandModel::Unread(a) => seq![program, "unread"@] + optional_arg("account"@, a.account)
            + seq![long_arg("limit"@, decimal_text(a.limit as nat))],
        CommandModel::Search(a) => seq![program, "search"@] + optional_arg("account"@, a.account)
            + optional_arg("mailbox"@, a.mailbox) + seq![
            long_arg("limit"@, decimal_text(a.limit as nat)),
            seq!['-', '-'],
            a.query,
        ],
        CommandModel::Get(a) => seq![program, "get"@] + locator_args(a.locator) + flag_if(
            a.include_body,
            FlagName::IncludeBody,
        ) + match a.max_body_bytes {
            Some(b) => seq![long_arg("max-body-bytes"@, decimal_text(b as nat))],
            None => seq![],
        },
        CommandModel::MarkRead(a) => seq![program, "mark-read"@] + locator_args(a.locator)
            + flag_if(a.execute, FlagName::Execute),
        CommandModel::Move(a) => seq![program, "move"@] + locator_args(a.locator) + seq![
            long_arg("to"@, a.destination),
        ] + flag_if(a.execute, FlagName::Execute),
    }
}

proof fn lemma_names()
    ensures
        plain_name("account"@),
        plain_name("mailbox"@),
        plain_name("id"@),
        plain_name("to"@),
        plain_name("limit"@),
        plain_name("max-body-bytes"@),
        subcommand_named("accounts"@) == Some(Subcommand::Accounts),
        subcommand_named("mailboxes"@) == Some(Subcommand::Mailboxes),
        subcommand_named("unread"@) == Some(Subcommand::Unread),
        subcommand_named("search"@) == Some(Subcommand::Search),
        subcommand_named("get"@) == Some(Subcommand::Get),
        subcommand_named("mark-read"@) == Some(Subcommand::MarkRead),
        subcommand_named("move"@) == Some(Subcommand::Move),
        forall|sub: Subcommand| sub != Subcommand::Accounts ==> option_named(sub, "account"@)
            == Some(OptionName::Account),
        forall|sub: Subcommand| (sub == Subcommand::Search || sub == Subcommand::Get || sub
            == Subcommand::MarkRead || sub == Subcommand::Move) ==> option_named(sub, "mailbox"@)
            == Some(OptionName::Mailbox),
        forall|sub: Subcommand| (sub == Subcommand::Get || sub == Subcommand::MarkRead || sub
            == Subcommand::Move) ==> option_named(sub, "id"@) == Some(OptionName::Id),
        option_named(Subcommand::Move, "to"@) == Some(OptionName::Destination),
        option_named(Subcommand::Unread, "limit"@) == Some(OptionName::Limit),
        option_named(Subcommand::Search, "limit"@) == Some(OptionName::Limit),
        option_named(Subcommand::Get, "max-body-bytes"@) == Some(OptionName::MaxBodyBytes),
        forall|sub: Subcommand|
            flag_named(sub, "account"@) is None && flag_named(sub, "mailbox"@) is None
                && flag_named(sub, "id"@) is None && flag_named(sub, "to"@) is None
                && flag_named(sub, "limit"@) is None && flag_named(sub, "max-body-bytes"@) is None,
        flag_named(Subcommand::Get, flag_text(FlagName::IncludeBody)) == Some(FlagName::IncludeBody),
        flag_named(Subcommand::MarkRead, flag_text(FlagName::Execute)) == Some(FlagName::Execute),
        flag_named(Subcommand::Move, flag_text(FlagName::Execute)) == Some(FlagName::Execute),
{
    reveal_strlit("account");
    reveal_strlit("mailbox");
    reveal_strlit("id");
    reveal_strlit("to");
    reveal_strlit("limit");
    reveal_strlit("max-body-bytes");
    reveal_strlit("help");
    reveal_strlit("execute");
    reveal_strlit("include-body");
    reveal_strlit("accounts");
    reveal_strlit("mailboxes");
    reveal_strlit("unread");
    reveal_strlit("search");
    reveal_strlit("get");
    reveal_strlit("mark-read");
    reveal_strlit("move");
    assert("account"@.len() == 7);
    assert("mailbox"@.len() == 7);
    assert("id"@.len() == 2);
    assert("to"@.len() == 2);
    assert("limit"@.len() == 5);
    assert("max-body-bytes"@.len() == 14);
    assert("help"@.len() == 4);
    assert("execute"@.len() == 7);
    assert("include-body"@.len() == 12);
    assert("accounts"@.len() == 8);
    assert("mailboxes"@.len() == 9);
    assert("unread"@.len() == 6);
    assert("search"@.len() == 6);
    assert("get"@.len() == 3);
    assert("mark-read"@.len() == 9);
    assert("move"@.len() == 4);
    assert("account"@[0] != "mailbox"@[0]);
    assert("account"@[0] != "execute"@[0]);
    assert("mailbox"@[0] != "execute"@[0]);
    assert("id"@[0] != "to"@[0]);
    assert("unread"@[0] != "search"@[0]);
    assert("mailboxes"@[0] != "mark-read"@[1] || "mailboxes"@[2] != "mark-read"@[2]);
}

proof fn lemma_decimal_option(n: nat, max: nat)
    requires
        1 <= n <= max,
    ensures
        crate::cli::positive_at_most(decimal_text(n), max),
        number_of(decimal_text(n)) == n,
        crate::text::bounded_decimal(decimal_text(n), max) == Some(n),
{
    lemma_decimal_text_value(n);
}

#[verifier::spinoff_prover]
#[verifier::rlimit(60)]
proof fn lemma_unread_parses(program: Seq<char>, a: UnreadModel)
    requires
        within_bounds(CommandModel::Unread(a)),
    ensures
        parse_command_line(command_line(program, CommandModel::Unread(a))) == Ok::<
            CommandModel,
            crate::cli::ErrorKind,
        >(CommandModel::Unread(a)),
{
    lemma_names();
    let args = command_line(program, CommandModel::Unread(a));
    let sub = Subcommand::Unread;
    let limit = decimal_text(a.limit as nat);
    lemma_decimal_option(a.limit as nat, crate::cli::MAX_LIMIT as nat);
    assert(args[1] == "unread"@);
    let s2 = initial_scan();
    assert(scan(sub, args, 2) == Ok::<ScanState, crate::cli::ErrorKind>(s2));
    match a.account {
        Some(x) => {
            assert(args =~= seq![program, "unread"@, long_arg("account"@, x), long_arg("limit"@, limit)]);
            lemma_option_step(sub, args, 2, "account"@, x, OptionName::Account);
            let s3 = with_option(s2, OptionName::Account, x);
            lemma_option_step(sub, args, 3, "limit"@, limit, OptionName::Limit);
            let s4 = with_option(s3, OptionName::Limit, limit);
            assert(scan(sub, args, 4) == Ok::<ScanState, crate::cli::ErrorKind>(s4));
            assert(finish(sub, s4) == Ok::<CommandModel, crate::cli::ErrorKind>(CommandModel::Unread(a)));
        },
        None => {
            assert(args =~= seq![program, "unread"@, long_arg("limit"@, limit)]);
            lemma_option_step(sub, args, 2, "limit"@, limit, OptionName::Limit);
            let s3 = with_option(s2, OptionName::Limit, limit);
            assert(finish(sub, s3) == Ok::<CommandModel, crate::cli::ErrorKind>(CommandModel::Unread(a)));
        },
    }
}

/// The state after an optional option.
pub open spec fn after_optional(s: ScanState, o: OptionName, value: Option<Seq<char>>) -> ScanState {
    match value {
        Some(v) => with_option(s, o, v),
        None => s,
    }
}

proof fn lemma_optional_step(
    sub: Subcommand,
    args: Seq<Seq<char>>,
    i: int,
    name: Seq<char>,
    value: Option<Seq<char>>,
    o: OptionName,
)
    requires
        2 <= i,
        i + optional_arg(name, value).len() <= args.len(),
        scan(sub, args, i) is Ok,
        !scan(sub, args, i)->Ok_0.skip_next,
        !scan(sub, args, i)->Ok_0.escaped,
        value matches Some(v) ==> args[i] == long_arg(name, v) && value_ok(o, v),
        plain_name(name),
        flag_named(sub, name) is None,
        option_named(sub, name) == Some(o),
        option_value(scan(sub, args, i)->Ok_0, o) is None,
    ensures
        scan(sub, args, i + optional_arg(name, value).len()) == Ok::<ScanState, crate::cli::ErrorKind>(
            after_optional(scan(sub, args, i)->Ok_0, o, value),
        ),
{
    if let Some(v) = value {
        lemma_option_step(sub, args, i, name, v, o);
    }
}

proof fn lemma_flag_if_step(sub: Subcommand, args: Seq<Seq<char>>, i: int, set: bool, f: FlagName)
    requires
        2 <= i,
        i + flag_if(set, f).len() <= args.len(),
        scan(sub, args, i) is Ok,
        !scan(sub, args, i)->Ok_0.skip_next,
        !scan(sub, args, i)->Ok_0.escaped,
        set ==> args[i] == flag_argument(f),
        flag_named(sub, flag_text(f)) == Some(f),
        !crate::cli::flag_value(scan(sub, args, i)->Ok_0, f),
    ensures
        scan(sub, args, i + flag_if(set, f).len()) == Ok::<ScanState, crate::cli::ErrorKind>(
            if set { with_flag(scan(sub, args, i)->Ok_0, f) } else { scan(sub, args, i)->Ok_0 },
        ),
{
    if set {
        lemma_flag_step(sub, args, i, f);
    }
}

#[verifier::spinoff_prover]
#[verifier::rlimit(60)]
proof fn lemma_search_parses(program: Seq<char>, a: SearchModel)
    requires
        within_bounds(CommandModel::Search(a)),
    ensures
        parse_command_line(command_line(program, CommandModel::Search(a))) == Ok::<
            CommandModel,
            crate::cli::ErrorKind,
        >(CommandModel::Search(a)),
{
    lemma_names();
    let args = command_line(program, CommandModel::Search(a));
    let sub = Subcommand::Search;
    let limit = decimal_text(a.limit as nat);
    lemma_decimal_option(a.limit as nat, crate::cli::MAX_LIMIT as nat);
    let acc = optional_arg("account"@, a.account);
    let mbx = optional_arg("mailbox"@, a.mailbox);
    let tail = seq![long_arg("limit"@, limit), seq!['-', '-'], a.query];
    assert(args =~= seq![program, "search"@] + acc + mbx + tail);
    let i1: int = 2 + acc.len() as int;
    let i2: int = i1 + mbx.len() as int;
    assert(args[1] == "search"@);
    assert(scan(sub, args, 2) == Ok::<ScanState, crate::cli::ErrorKind>(initial_scan()));
    if let Some(x) = a.account {
        assert(args[2] == long_arg("account"@, x));
    }
    lemma_optional_step(sub, args, 2, "account"@, a.account, OptionName::Account);
    let s1 = after_optional(initial_scan(), OptionName::Account, a.account);
    if let Some(y) = a.mailbox {
        assert(args[i1] == long_arg("mailbox"@, y));
    }
    lemma_optional_step(sub, args, i1, "mailbox"@, a.mailbox, OptionName::Mailbox);
    let s2 = after_optional(s1, OptionName::Mailbox, a.mailbox);
    assert(args[i2] == long_arg("limit"@, limit));
    lemma_option_step(sub, args, i2, "limit"@, limit, OptionName::Limit);
    let s3 = with_option(s2, OptionName::Limit, limit);
    assert(args[i2 + 1] == seq!['-', '-']);
    assert(scan(sub, args, i2 + 2) == scan_step(sub, args, i2 + 1, s3));
    let s4 = ScanState { escaped: true, ..s3 };
    assert(scan(sub, args, i2 + 2) == Ok::<ScanState, crate::cli::ErrorKind>(s4));
    assert(args[i2 + 2] == a.query);
    assert(scan(sub, args, i2 + 3) == scan_step(sub, args, i2 + 2, s4));
    let s5 = ScanState { query: Some(a.query), ..s4 };
    assert(scan(sub, args, i2 + 3) == Ok::<ScanState, crate::cli::ErrorKind>(s5));
    assert(args.len() == i2 + 3);
    assert(finish(sub, s5) == Ok::<CommandModel, crate::cli::ErrorKind>(CommandModel::Search(a)));
}

/// The state after the locator options.
pub open spec fn after_locator(l: LocatorModel) -> ScanState {
    with_option(
        with_option(with_option(initial_scan(), OptionName::Account, l.account), OptionName::Mailbox, l.mailbox),
        OptionName::Id,
        decimal_text(l.id as nat),
    )
}

#[verifier::spinoff_prover]
#[verifier::rlimit(80)]
proof fn lemma_locator_steps(sub: Subcommand, args: Seq<Seq<char>>, l: LocatorModel)
    requires
        sub == Subcommand::Get || sub == Subcommand::MarkRead || sub == Subcommand::Move,
        args.len() >= 5,
        args.subrange(2, 5) == locator_args(l),
        crate::laws::locator_within_bounds(l),
    ensures
        scan(sub, args, 5) == Ok::<ScanState, crate::cli::ErrorKind>(after_locator(l)),
        number_of(decimal_text(l.id as nat)) == l.id,
        crate::cli::locator_of(after_locator(l)) == l,
{
    lemma_names();
    lemma_decimal_text_value(l.id as nat);
    assert(args[2] == args.subrange(2, 5)[0]);
    assert(args[3] == args.subrange(2, 5)[1]);
    assert(args[4] == args.subrange(2, 5)[2]);
    assert(scan(sub, args, 2) == Ok::<ScanState, crate::cli::ErrorKind>(initial_scan()));
    lemma_option_step(sub, args, 2, "account"@, l.account, OptionName::Account);
    let s3 = with_option(initial_scan(), OptionName::Account, l.account);
    lemma_option_step(sub, args, 3, "mailbox"@, l.mailbox, OptionName::Mailbox);
    let s4 = with_option(s3, OptionName::Mailbox, l.mailbox);
    lemma_option_step(sub, args, 4, "id"@, decimal_text(l.id as nat), OptionName::Id);
}

#[verifier::spinoff_prover]
#[verifier::rlimit(60)]
proof fn lemma_get_parses(program: Seq<char>, a: GetModel)
    requires
        within_bounds(CommandModel::Get(a)),
    ensures
        parse_command_line(command_line(program, CommandModel::Get(a))) == Ok::<
            CommandModel,
            crate::cli::ErrorKind,
        >(CommandModel::Get(a)),
{
    lemma_names();
    let args = command_line(program, CommandModel::Get(a));
    let sub = Subcommand::Get;
    let fl = flag_if(a.include_body, FlagName::IncludeBody);
    let max = match a.max_body_bytes {
        Some(b) => seq![long_arg("max-body-bytes"@, decimal_text(b as nat))],
        None => seq![],
    };
    assert(args =~= seq![program, "get"@] + locator_args(a.locator) + fl + max);
    assert(args.subrange(2, 5) =~= locator_args(a.locator));
    assert(args[1] == "get"@);
    lemma_locator_steps(sub, args, a.locator);
    let s5 = after_locator(a.locator);
    if a.include_body {
        assert(args[5] == flag_argument(FlagName::IncludeBody));
    }
    lemma_flag_if_step(sub, args, 5, a.include_body, FlagName::IncludeBody);
    let s6 = if a.include_body { with_flag(s5, FlagName::IncludeBody) } else { s5 };
    let i: int = 5 + fl.len() as int;
    let text = match a.max_body_bytes {
        Some(b) => Some(decimal_text(b as nat)),
        None => None,
    };
    if let Some(b) = a.max_body_bytes {
        lemma_decimal_option(b as nat, crate::cli::MAX_BODY_BYTES_BOUND as nat);
        assert(args[i] == long_arg("max-body-bytes"@, decimal_text(b as nat)));
    }
    assert(max =~= optional_arg("max-body-bytes"@, text));
    lemma_optional_step(sub, args, i, "max-body-bytes"@, text, OptionName::MaxBodyBytes);
    let s7 = after_optional(s6, OptionName::MaxBodyBytes, text);
    assert(args.len() == i + max.len());
    assert(finish(sub, s7) == Ok::<CommandModel, crate::cli::ErrorKind>(CommandModel::Get(a)));
}

#[verifier::spinoff_prover]
#[verifier::rlimit(60)]
proof fn lemma_mark_read_parses(program: Seq<char>, a: MarkReadModel)
    requires
        within_bounds(CommandModel::MarkRead(a)),
    ensures
        parse_command_line(command_line(program, CommandModel::MarkRead(a))) == Ok::<
            CommandModel,
            crate::cli::ErrorKind,
        >(CommandModel::MarkRead(a)),
{
    lemma_names();
    let args = command_line(program, CommandModel::MarkRead(a));
    let sub = Subcommand::MarkRead;
    let fl = flag_if(a.execute, FlagName::Execute);
    assert(args =~= seq![program, "mark-read"@] + locator_args(a.locator) + fl);
    assert(args.subrange(2, 5) =~= locator_args(a.locator));
    assert(args[1] == "mark-read"@);
    lemma_locator_steps(sub, args, a.locator);
    let s5 = after_locator(a.locator);
    if a.execute {
        assert(args[5] == flag_argument(FlagName::Execute));
    }
    lemma_flag_if_step(sub, args, 5, a.execute, FlagName::Execute);
    let s6 = if a.execute { with_flag(s5, FlagName::Execute) } else { s5 };
    assert(args.len() == 5 + fl.len());
    assert(finish(sub, s6) == Ok::<CommandModel, crate::cli::ErrorKind>(CommandModel::MarkRead(a)));
}

proof fn lemma_move_names()
    ensures
        plain_name("to"@),
        subcommand_named("move"@) == Some(Subcommand::Move),
        option_named(Subcommand::Move, "to"@) == Some(OptionName::Destination),
        flag_named(Subcommand::Move, "to"@) is None,
        flag_named(Subcommand::Move, flag_text(FlagName::Execute)) == Some(FlagName::Execute),
{
    lemma_names();
}

#[verifier::spinoff_prover]
#[verifier::rlimit(100)]
proof fn lemma_move_parses(program: Seq<char>, a: MoveModel)
    requires
        within_bounds(CommandModel::Move(a)),
    ensures
        parse_command_line(command_line(program, CommandModel::Move(a))) == Ok::<
            CommandModel,
            crate::cli::ErrorKind,
        >(CommandModel::Move(a)),
{
    lemma_move_names();
    let args = command_line(program, CommandModel::Move(a));
    let sub = Subcommand::Move;
    let fl = flag_if(a.execute, FlagName::Execute);
    assert(args =~= seq![program, "move"@] + locator_args(a.locator) + seq![long_arg("to"@, a.destination)] + fl);
    assert(args.subrange(2, 5) =~= locator_args(a.locator));
    assert(args[1] == "move"@);
    lemma_locator_steps(sub, args, a.locator);
    let s5 = after_locator(a.locator);
    assert(args[5] == long_arg("to"@, a.destination));
    lemma_option_step(sub, args, 5, "to"@, a.destination, OptionName::Destination);
    let s6 = with_option(s5, OptionName::Destination, a.destination);
    if a.execute {
        assert(args[6] == flag_argument(FlagName::Execute));
    }
    lemma_flag_if_step(sub, args, 6, a.execute, FlagName::Execute);
    let s7 = if a.execute { with_flag(s6, FlagName::Execute) } else { s6 };
    assert(args.len() == 6 + fl.len());
    assert(finish(sub, s7) == Ok::<CommandModel, crate::cli::ErrorKind>(CommandModel::Move(a)));
}

#[verifier::spinoff_prover]
proof fn lemma_mailboxes_parses(program: Seq<char>, a: MailboxesModel)
    requires
        within_bounds(CommandModel::Mailboxes(a)),
    ensures
        parse_command_line(command_line(program, CommandModel::Mailboxes(a))) == Ok::<
            CommandModel,
            crate::cli::ErrorKind,
        >(CommandModel::Mailboxes(a)),
{
    lemma_names();
    let args = command_line(program, CommandModel::Mailboxes(a));
    let sub = Subcommand::Mailboxes;
    assert(scan(sub, args, 2) == Ok::<ScanState, crate::cli::ErrorKind>(initial_scan()));
    lemma_option_step(sub, args, 2, "account"@, a.account, OptionName::Account);
}

/// Law: the parser reads a command back from its command line. For every
/// command within the bounds of `within_bounds`, the command line that
/// writes each of its values as an option (`--account=...`, `--limit=N`,
/// `--id=N`, `--to=...`, `--max-body-bytes=N`, the flags it sets, and a
/// search query after `--`) parses to exactly that command: every value
/// given reaches the command, and none is replaced by a default.
pub proof fn law_command_lines_parse_back(program: Seq<char>, c: CommandModel)
    requires
        within_bounds(c),
    ensures
        parse_command_line(command_line(program, c)) == Ok::<CommandModel, crate::cli::ErrorKind>(c),
{
    lemma_names();
    match c {
        CommandModel::Accounts => {},
        CommandModel::Mailboxes(a) => lemma_mailboxes_parses(program, a),
        CommandModel::Unread(a) => lemma_unread_parses(program, a),
        CommandModel::Search(a) => lemma_search_parses(program, a),
        CommandModel::Get(a) => lemma_get_parses(program, a),
        CommandModel::MarkRead(a) => lemma_mark_read_parses(program, a),
        CommandModel::Move(a) => lemma_move_parses(program, a),
    }
}

/// Law: without `--limit`, `unread` returns the default number of messages.
/// An `unread` command line that holds at most an account parses with the
/// limit `DEFAULT_LIMIT`.
pub proof fn law_unread_limit_defaults(program: Seq<char>, account: Option<Seq<char>>)
    requires
        account matches Some(a) ==> crate::cli::bounded_text(a, crate::cli::MAX_ACCOUNT_BYTES as nat),
    ensures
        parse_command_line(seq![program, "unread"@] + optional_arg("account"@, account)) == Ok::<
            CommandModel,
            crate::cli::ErrorKind,
        >(CommandModel::Unread(UnreadModel { account, limit: DEFAULT_LIMIT })),
{
    lemma_names();
    let args = seq![program, "unread"@] + optional_arg("account"@, account);
    let sub = Subcommand::Unread;
    assert(args[1] == "unread"@);
    assert(scan(sub, args, 2) == Ok::<ScanState, crate::cli::ErrorKind>(initial_scan()));
    if let Some(x) = account {
        assert(args[2] == long_arg("account"@, x));
    }
    lemma_optional_step(sub, args, 2, "account"@, account, OptionName::Account);
}

} // verus!
