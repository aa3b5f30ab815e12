//! Properties of the library as a whole, each proved over the models that
//! the functions' contracts use.
use vstd::prelude::*;
use crate::cli::{
    body_bound_in_range, bounded_text, can_be_value, first_index_of, flag_named, flag_value,
    is_escape, is_long, lemma_scan_error_persists, lemma_scan_values_valid, limit_in_range, long_name, long_value, number_of,
    parse_command_line, positive_at_most, scan, scan_step, subcommand_named, with_flag,
    CommandModel, FlagName, LocatorModel, ScanState, Subcommand, MAX_ACCOUNT_BYTES,
    MAX_BODY_BYTES_BOUND, MAX_LIMIT, MAX_MAILBOX_BYTES, MAX_QUERY_BYTES,
};
use crate::request::{preview_of, preview_tree, request_of, request_tree, PreviewModel, RequestModel};

verus! {

/// The name of a flag, as written after `--`.
pub open spec fn flag_text(f: FlagName) -> Seq<char> {
    match f {
        FlagName::Execute => "execute"@,
        FlagName::IncludeBody => "include-body"@,
    }
}

/// The argument that sets a flag: `--` and the flag's name.
pub open spec fn flag_argument(f: FlagName) -> Seq<char> {
    seq!['-', '-'] + flag_text(f)
}

proof fn lemma_long_without_value(a: Seq<char>)
    requires
        is_long(a),
        long_value(a) is None,
    ensures
        a == seq!['-', '-'] + long_name(a),
{
    assert(a =~= seq!['-', '-'] + a.subrange(2, a.len() as int));
}

proof fn lemma_flag_origin(sub: Subcommand, args: Seq<Seq<char>>, n: int, f: FlagName)
    requires
        n <= args.len(),
        scan(sub, args, n) is Ok,
        flag_value(scan(sub, args, n)->Ok_0, f),
    ensures
        exists|i: int| 2 <= i < n && args[i] == flag_argument(f),
    decreases n,
{
    let s = scan(sub, args, n - 1)->Ok_0;
    if flag_value(s, f) {
        lemma_flag_origin(sub, args, n - 1, f);
        let i = choose|i: int| 2 <= i < n - 1 && args[i] == flag_argument(f);
        assert(2 <= i < n && args[i] == flag_argument(f));
    } else {
        let a = args[n - 1];
        assert(!s.skip_next && !s.escaped && is_long(a));
        assert(long_value(a) is None);
        lemma_long_without_value(a);
        assert(flag_named(sub, long_name(a)) == Some(f));
        assert(long_name(a) == flag_text(f));
        assert(args[n - 1] == flag_argument(f));
    }
}

/// True for a request that reads a message body.
pub open spec fn reads_body(r: RequestModel) -> bool {
    r matches RequestModel::Get { include_body, .. } && include_body
}

/// True when a request carries a body bound exactly when it reads the body,
/// and the bound is in range.
pub open spec fn body_bound_follows_access(r: RequestModel) -> bool {
    match r {
        RequestModel::Get { include_body, max_body_bytes, .. } => if include_body {
            max_body_bytes matches Some(bound) && body_bound_in_range(bound)
        } else {
            max_body_bytes is None
        },
        _ => true,
    }
}

/// Law: message bodies are not read unless `--include-body` is present. A
/// command line whose request reads a body holds the argument
/// `--include-body`; a request carries a body bound, in range, exactly when
/// it reads the body.
pub proof fn law_body_only_on_request(args: Seq<Seq<char>>)
    requires
        parse_command_line(args) is Ok,
    ensures
        reads_body(request_of(parse_command_line(args)->Ok_0)) ==> exists|i: int|
            2 <= i < args.len() && args[i] == flag_argument(FlagName::IncludeBody),
        body_bound_follows_access(request_of(parse_command_line(args)->Ok_0)),
{
    let sub = subcommand_named(args[1])->Some_0;
    let s = scan(sub, args, args.len() as int)->Ok_0;
    lemma_scan_values_valid(sub, args, args.len() as int);
    if sub == Subcommand::Get && s.include_body {
        lemma_flag_origin(sub, args, args.len() as int, FlagName::IncludeBody);
    }
    if sub == Subcommand::Get {
        if let Some(t) = s.max_body_bytes {
            assert(positive_at_most(t, MAX_BODY_BYTES_BOUND as nat));
        }
    }
}

/// Law: mutations require `--execute`. A `mark-read` or `move` command line
/// that would change Mail, that is, has no preview, holds the argument
/// `--execute`.
pub proof fn law_mutation_only_with_execute(args: Seq<Seq<char>>)
    requires
        parse_command_line(args) is Ok,
    ensures
        ({
            let c = parse_command_line(args)->Ok_0;
            (c is MarkRead || c is Move) && preview_of(c) is None ==> exists|i: int|
                2 <= i < args.len() && args[i] == flag_argument(FlagName::Execute)
        }),
{
    let sub = subcommand_named(args[1])->Some_0;
    let s = scan(sub, args, args.len() as int)->Ok_0;
    if (sub == Subcommand::MarkRead || sub == Subcommand::Move) && s.execute {
        lemma_flag_origin(sub, args, args.len() as int, FlagName::Execute);
    }
}

/// The bounds that every parsed command respects: texts are non-empty and
/// within their byte limits, limits are in `1..=200`, a body bound is in
/// `1..=1_000_000` and comes with body access, a mailbox scope comes with an
/// account.
pub open spec fn within_bounds(c: CommandModel) -> bool {
    match c {
        CommandModel::Accounts => true,
        CommandModel::Mailboxes(args) => bounded_text(args.account, MAX_ACCOUNT_BYTES as nat),
        CommandModel::Unread(args) => {
            &&& args.account matches Some(a) ==> bounded_text(a, MAX_ACCOUNT_BYTES as nat)
            &&& limit_in_range(args.limit)
        },
        CommandModel::Search(args) => {
            &&& bounded_text(args.query, MAX_QUERY_BYTES as nat)
            &&& args.account matches Some(a) ==> bounded_text(a, MAX_ACCOUNT_BYTES as nat)
            &&& args.mailbox matches Some(m) ==> bounded_text(m, MAX_MAILBOX_BYTES as nat)
            &&& args.mailbox is Some ==> args.account is Some
            &&& limit_in_range(args.limit)
        },
        CommandModel::Get(args) => {
            &&& locator_within_bounds(args.locator)
            &&& args.max_body_bytes matches Some(bound) ==> body_bound_in_range(bound)
                && args.include_body
        },
        CommandModel::MarkRead(args) => locator_within_bounds(args.locator),
        CommandModel::Move(args) => {
            &&& locator_within_bounds(args.locator)
            &&& bounded_text(args.destination, MAX_MAILBOX_BYTES as nat)
        },
    }
}

pub open spec fn locator_within_bounds(l: LocatorModel) -> bool {
    bounded_text(l.account, MAX_ACCOUNT_BYTES as nat) && bounded_text(
        l.mailbox,
        MAX_MAILBOX_BYTES as nat,
    )
}

proof fn lemma_positive_number(t: Seq<char>, max: nat)
    requires
        positive_at_most(t, max),
    ensures
        1 <= number_of(t) <= max,
{
}

/// Law: reads, string inputs and body output are bounded. Every command that
/// parses is within the bounds of `within_bounds`.
pub proof fn law_parsed_commands_are_bounded(args: Seq<Seq<char>>)
    requires
        parse_command_line(args) is Ok,
    ensures
        within_bounds(parse_command_line(args)->Ok_0),
{
    let sub = subcommand_named(args[1])->Some_0;
    let s = scan(sub, args, args.len() as int)->Ok_0;
    lemma_scan_values_valid(sub, args, args.len() as int);
    if let Some(t) = s.limit {
        lemma_positive_number(t, MAX_LIMIT as nat);
    }
    if let Some(t) = s.max_body_bytes {
        lemma_positive_number(t, MAX_BODY_BYTES_BOUND as nat);
    }
}

/// Law: a preview shows exactly what executing the command would send. The
/// preview of a command has the members of the request that the same command
/// sends once `--execute` is added: the same action, locator and
/// destination.
pub proof fn law_preview_shows_the_request(c: CommandModel)
    requires
        preview_of(c) is Some,
    ensures
        preview_tree(preview_of(c)->Some_0)->Object_0.to_set() == request_tree(
            request_of(c),
        )->Object_0.to_set(),
{
    let p = preview_tree(preview_of(c)->Some_0)->Object_0;
    let q = request_tree(request_of(c))->Object_0;
    assert forall|x| p.contains(x) <==> q.contains(x) by {
        if p.contains(x) {
            let i = choose|i: int| 0 <= i < p.len() && p[i] == x;
            if c is MarkRead {
                if i == 0 { assert(q[1] == x); }
                if i == 1 { assert(q[0] == x); }
                if i == 2 { assert(q[3] == x); }
                if i == 3 { assert(q[2] == x); }
            } else {
                if i == 0 { assert(q[1] == x); }
                if i == 1 { assert(q[0] == x); }
                if i == 2 { assert(q[4] == x); }
                if i == 3 { assert(q[3] == x); }
                if i == 4 { assert(q[2] == x); }
            }
        }
        if q.contains(x) {
            let i = choose|i: int| 0 <= i < q.len() && q[i] == x;
            if c is MarkRead {
                if i == 0 { assert(p[1] == x); }
                if i == 1 { assert(p[0] == x); }
                if i == 2 { assert(p[3] == x); }
                if i == 3 { assert(p[2] == x); }
            } else {
                if i == 0 { assert(p[1] == x); }
                if i == 1 { assert(p[0] == x); }
                if i == 2 { assert(p[4] == x); }
                if i == 3 { assert(p[3] == x); }
                if i == 4 { assert(p[2] == x); }
            }
        }
    }
    assert(p.to_set() =~= q.to_set());
}

proof fn lemma_step_ignores_appended(
    sub: Subcommand,
    args: Seq<Seq<char>>,
    x: Seq<char>,
    i: int,
    s: ScanState,
)
    requires
        2 <= i < args.len(),
        !can_be_value(x),
    ensures
        scan_step(sub, args.push(x), i, s) == scan_step(sub, args, i, s),
{
    let longer = args.push(x);
    assert(longer[i] == args[i]);
    if i + 1 < args.len() {
        assert(longer[i + 1] == args[i + 1]);
    } else {
        assert(longer[i + 1] == x);
    }
}

proof fn lemma_scan_ignores_appended(sub: Subcommand, args: Seq<Seq<char>>, x: Seq<char>, n: int)
    requires
        n <= args.len(),
        !can_be_value(x),
    ensures
        scan(sub, args.push(x), n) == scan(sub, args, n),
    decreases n,
{
    if n > 2 {
        lemma_scan_ignores_appended(sub, args, x, n - 1);
        if scan(sub, args, n - 1) is Ok {
            lemma_step_ignores_appended(sub, args, x, n - 1, scan(sub, args, n - 1)->Ok_0);
        }
    }
}

proof fn lemma_no_pending_value(sub: Subcommand, args: Seq<Seq<char>>)
    requires
        scan(sub, args, args.len() as int) is Ok,
    ensures
        !scan(sub, args, args.len() as int)->Ok_0.skip_next,
{
}

proof fn lemma_never_escaped(sub: Subcommand, args: Seq<Seq<char>>, n: int)
    requires
        n <= args.len(),
        forall|i: int| 2 <= i < args.len() ==> !is_escape(#[trigger] args[i]),
        scan(sub, args, n) is Ok,
    ensures
        !scan(sub, args, n)->Ok_0.escaped,
    decreases n,
{
    if n > 2 {
        lemma_never_escaped(sub, args, n - 1);
        assert(!is_escape(args[n - 1]));
    }
}

proof fn lemma_execute_argument()
    ensures
        !can_be_value(flag_argument(FlagName::Execute)),
        !is_escape(flag_argument(FlagName::Execute)),
        is_long(flag_argument(FlagName::Execute)),
        long_name(flag_argument(FlagName::Execute)) == "execute"@,
        long_value(flag_argument(FlagName::Execute)) is None,
{
    reveal_strlit("execute");
    let a = flag_argument(FlagName::Execute);
    let body = a.subrange(2, a.len() as int);
    assert(body =~= "execute"@);
    assert(!(exists|k: int| 0 <= k < body.len() && body[k] == '='));
    assert(first_index_of(body, '=') is None);
}

/// Law: a previewed mutation is carried out by repeating its command line
/// with `--execute`. Appending `--execute` to a `mark-read` or `move`
/// command line that shows a preview gives a command line that parses, shows
/// no preview, and sends the request whose members the preview showed. (A
/// command line that holds the argument `--` is left out: after it,
/// `--execute` would be a positional value, which these commands refuse.)
pub proof fn law_execute_after_preview(args: Seq<Seq<char>>)
    requires
        parse_command_line(args) is Ok,
        preview_of(parse_command_line(args)->Ok_0) is Some,
        forall|i: int| 2 <= i < args.len() ==> !is_escape(#[trigger] args[i]),
    ensures
        ({
            let c = parse_command_line(args)->Ok_0;
            let executed = parse_command_line(args.push(flag_argument(FlagName::Execute)));
            &&& executed is Ok
            &&& preview_of(executed->Ok_0) is None
            &&& request_of(executed->Ok_0) == request_of(c)
            &&& preview_tree(preview_of(c)->Some_0)->Object_0.to_set() == request_tree(
                request_of(executed->Ok_0),
            )->Object_0.to_set()
        }),
{
    let x = flag_argument(FlagName::Execute);
    let longer = args.push(x);
    let n = args.len() as int;
    let sub = subcommand_named(args[1])->Some_0;
    let s = scan(sub, args, n)->Ok_0;
    lemma_execute_argument();
    lemma_scan_ignores_appended(sub, args, x, n);
    lemma_no_pending_value(sub, args);
    lemma_never_escaped(sub, args, n);
    assert(longer[1] == args[1]);
    assert(longer[n] == x);
    assert(sub == Subcommand::MarkRead || sub == Subcommand::Move);
    assert(!s.execute);
    reveal_strlit("help");
    reveal_strlit("execute");
    assert("execute"@ != "help"@);
    assert(flag_named(sub, "execute"@) == Some(FlagName::Execute));
    assert(scan(sub, longer, n) == Ok::<ScanState, crate::cli::ErrorKind>(s));
    assert(scan_step(sub, longer, n, s) == Ok::<ScanState, crate::cli::ErrorKind>(
        with_flag(s, FlagName::Execute),
    ));
    law_preview_shows_the_request(parse_command_line(args)->Ok_0);
}

proof fn lemma_pending_value_is_a_value(sub: Subcommand, args: Seq<Seq<char>>, n: int)
    requires
        n <= args.len(),
        scan(sub, args, n) is Ok,
        scan(sub, args, n)->Ok_0.skip_next,
    ensures
        n < args.len(),
        can_be_value(args[n]),
{
}

proof fn lemma_execute_persists(sub: Subcommand, args: Seq<Seq<char>>, k: int, n: int)
    requires
        2 <= k <= n <= args.len(),
        scan(sub, args, n) is Ok,
        scan(sub, args, k) is Ok,
        scan(sub, args, k)->Ok_0.execute,
    ensures
        scan(sub, args, n)->Ok_0.execute,
    decreases n - k,
{
    if n > k {
        if scan(sub, args, n - 1) is Err {
            lemma_scan_error_persists(sub, args, n - 1, n);
        }
        lemma_execute_persists(sub, args, k, n - 1);
    }
}

/// Law: `--execute` executes. A `mark-read` or `move` command line that
/// parses and holds the argument `--execute` shows no preview, so it is sent
/// to Mail.
pub proof fn law_execute_flag_executes(args: Seq<Seq<char>>, i: int)
    requires
        parse_command_line(args) is Ok,
        2 <= i < args.len(),
        args[i] == flag_argument(FlagName::Execute),
    ensures
        ({
            let c = parse_command_line(args)->Ok_0;
            (c is MarkRead || c is Move) ==> preview_of(c) is None
        }),
{
    let c = parse_command_line(args)->Ok_0;
    let sub = subcommand_named(args[1])->Some_0;
    let n = args.len() as int;
    if c is MarkRead || c is Move {
        assert(sub == Subcommand::MarkRead || sub == Subcommand::Move);
        lemma_execute_argument();
        let x = flag_argument(FlagName::Execute);
        if scan(sub, args, i) is Err {
            lemma_scan_error_persists(sub, args, i, n);
        }
        if scan(sub, args, i + 1) is Err {
            lemma_scan_error_persists(sub, args, i + 1, n);
        }
        let s = scan(sub, args, i)->Ok_0;
        if s.skip_next {
            lemma_pending_value_is_a_value(sub, args, i);
        }
        reveal_strlit("help");
        reveal_strlit("execute");
        assert("execute"@ != "help"@);
        assert(flag_named(sub, "execute"@) == Some(FlagName::Execute));
        assert(scan(sub, args, i + 1) == scan_step(sub, args, i, s));
        assert(scan(sub, args, i + 1)->Ok_0.execute);
        lemma_execute_persists(sub, args, i + 1, n);
    }
}

} // verus!
