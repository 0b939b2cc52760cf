//! Command-line parsing.
//!
//! `parse` takes the arguments after the program name. The first selects the
//! subcommand; the rest are the subcommand's options and its `name` argument.

use vstd::prelude::*;
use crate::text::{is_long_option, same_text, starts_with_two_dashes};

verus! {

/// What the program was asked to do.
pub enum Command {
    Client(ClientCommand),
    Server(ServerCommand),
    Version,
    Help,
}

/// What the `client` subcommand was asked to do.
/// A subcommand that takes a name carries `None` where no name was given;
/// the caller then prompts for it.
pub enum ClientCommand {
    Connect { name: String },
    Add { name: Option<String> },
    List,
    Help,
}

/// What the `server` subcommand was asked to do.
pub enum ServerCommand {
    Start { name: String },
    New { name: Option<String> },
    ShowKey { name: Option<String> },
    List,
    Help,
}

/// A [`ClientCommand`] with its name taken as characters.
pub enum ClientCommandView {
    Connect(Seq<char>),
    Add(Option<Seq<char>>),
    List,
    Help,
}

/// A [`ServerCommand`] with its name taken as characters.
pub enum ServerCommandView {
    Start(Seq<char>),
    New(Option<Seq<char>>),
    ShowKey(Option<Seq<char>>),
    List,
    Help,
}

/// A [`Command`] with its names taken as characters.
pub enum CommandView {
    Client(ClientCommandView),
    Server(ServerCommandView),
    Version,
    Help,
}

impl View for ClientCommand {
    type V = ClientCommandView;

    open spec fn view(&self) -> ClientCommandView {
        match self {
            ClientCommand::Connect { name } => ClientCommandView::Connect(name@),
            ClientCommand::Add { name } => ClientCommandView::Add(optional_name_view(*name)),
            ClientCommand::List => ClientCommandView::List,
            ClientCommand::Help => ClientCommandView::Help,
        }
    }
}

impl View for ServerCommand {
    type V = ServerCommandView;

    open spec fn view(&self) -> ServerCommandView {
        match self {
            ServerCommand::Start { name } => ServerCommandView::Start(name@),
            ServerCommand::New { name } => ServerCommandView::New(optional_name_view(*name)),
            ServerCommand::ShowKey { name } => ServerCommandView::ShowKey(
                optional_name_view(*name),
            ),
            ServerCommand::List => ServerCommandView::List,
            ServerCommand::Help => ServerCommandView::Help,
        }
    }
}

impl View for Command {
    type V = CommandView;

    open spec fn view(&self) -> CommandView {
        match self {
            Command::Client(c) => CommandView::Client(c@),
            Command::Server(c) => CommandView::Server(c@),
            Command::Version => CommandView::Version,
            Command::Help => CommandView::Help,
        }
    }
}

/// The arguments, each taken as characters.
pub open spec fn arg_views(args: Seq<String>) -> Seq<Seq<char>> {
    args.map_values(|s: String| s@)
}

/// The message for an option that the subcommand does not know.
pub open spec fn unknown_option_message(arg: Seq<char>) -> Seq<char> {
    "Unknown Option: "@ + arg
}

/// The message for a first argument that is neither a subcommand nor a known option.
pub open spec fn unknown_subcommand_message(arg: Seq<char>) -> Seq<char> {
    "Unknown Option or Subcommand: "@ + arg
}

/// A name that may have been left out, taken as characters.
pub open spec fn optional_name_view(name: Option<String>) -> Option<Seq<char>> {
    match name {
        Some(n) => Some(n@),
        None => None,
    }
}

/// A name given on the command line, or `None` when it was left out (no
/// argument other than options, or only empty ones) and is to be prompted for.
pub open spec fn given_name(name: Seq<char>) -> Option<Seq<char>> {
    if name.len() == 0 {
        None
    } else {
        Some(name)
    }
}

/// The message for `--new` given together with `--show-key`.
pub open spec fn new_with_show_key_message() -> Seq<char> {
    "--new and --show-key can't be used together"@
}

/// The last argument that is not a long option, or the empty text if there is none:
/// later names replace earlier ones.
pub open spec fn last_positional(args: Seq<Seq<char>>) -> Seq<char>
    decreases args.len(),
{
    if args.len() == 0 {
        Seq::empty()
    } else if !is_long_option(args.last()) {
        args.last()
    } else {
        last_positional(args.drop_last())
    }
}

/// An argument on which the client's parsing stops at once: `--help`, `--list`,
/// or a long option other than `--add`.
pub open spec fn client_stops_at(arg: Seq<char>) -> bool {
    arg == "--help"@ || arg == "--list"@ || (is_long_option(arg) && arg != "--add"@)
}

/// An argument on which the server's parsing stops at once: `--help`, `--list`,
/// or a long option other than `--new` and `--show-key`.
pub open spec fn server_stops_at(arg: Seq<char>) -> bool {
    arg == "--help"@ || arg == "--list"@ || (is_long_option(arg) && arg != "--new"@ && arg
        != "--show-key"@)
}

/// The first argument on which the client's parsing stops, if any.
pub open spec fn first_client_stop(args: Seq<Seq<char>>) -> Option<Seq<char>>
    decreases args.len(),
{
    if args.len() == 0 {
        None
    } else if client_stops_at(args[0]) {
        Some(args[0])
    } else {
        first_client_stop(args.drop_first())
    }
}

/// The first argument on which the server's parsing stops, if any.
pub open spec fn first_server_stop(args: Seq<Seq<char>>) -> Option<Seq<char>>
    decreases args.len(),
{
    if args.len() == 0 {
        None
    } else if server_stops_at(args[0]) {
        Some(args[0])
    } else {
        first_server_stop(args.drop_first())
    }
}

/// What the `client` subcommand's arguments ask for.
pub open spec fn spec_parse_client(args: Seq<Seq<char>>) -> Result<ClientCommandView, Seq<char>> {
    match first_client_stop(args) {
        Some(arg) => if arg == "--help"@ {
            Ok(ClientCommandView::Help)
        } else if arg == "--list"@ {
            Ok(ClientCommandView::List)
        } else {
            Err(unknown_option_message(arg))
        },
        None => {
            let name = last_positional(args);
            let add = args.contains("--add"@);
            if name.len() == 0 && !add {
                Ok(ClientCommandView::Help)
            } else if add {
                Ok(ClientCommandView::Add(given_name(name)))
            } else {
                Ok(ClientCommandView::Connect(name))
            }
        },
    }
}

/// What the `server` subcommand's arguments ask for.
pub open spec fn spec_parse_server(args: Seq<Seq<char>>) -> Result<ServerCommandView, Seq<char>> {
    match first_server_stop(args) {
        Some(arg) => if arg == "--help"@ {
            Ok(ServerCommandView::Help)
        } else if arg == "--list"@ {
            Ok(ServerCommandView::List)
        } else {
            Err(unknown_option_message(arg))
        },
        None => {
            let name = last_positional(args);
            let new = args.contains("--new"@);
            let show_key = args.contains("--show-key"@);
            if name.len() == 0 && !new && !show_key {
                Ok(ServerCommandView::Help)
            } else if new && show_key {
                Err(new_with_show_key_message())
            } else if new {
                Ok(ServerCommandView::New(given_name(name)))
            } else if show_key {
                Ok(ServerCommandView::ShowKey(given_name(name)))
            } else {
                Ok(ServerCommandView::Start(name))
            }
        },
    }
}

/// What the whole argument list asks for.
pub open spec fn spec_parse(args: Seq<Seq<char>>) -> Result<CommandView, Seq<char>> {
    if args.len() == 0 || args[0] == "--help"@ {
        Ok(CommandView::Help)
    } else if args[0] == "--version"@ {
        Ok(CommandView::Version)
    } else if args[0] == "client"@ {
        match spec_parse_client(args.drop_first()) {
            Ok(c) => Ok(CommandView::Client(c)),
            Err(e) => Err(e),
        }
    } else if args[0] == "server"@ {
        match spec_parse_server(args.drop_first()) {
            Ok(c) => Ok(CommandView::Server(c)),
            Err(e) => Err(e),
        }
    } else {
        Err(unknown_subcommand_message(args[0]))
    }
}

/// A parse result taken by its view.
pub open spec fn command_result_view(r: Result<Command, String>) -> Result<CommandView, Seq<char>> {
    match r {
        Ok(c) => Ok(c@),
        Err(e) => Err(e@),
    }
}

/// Parses the program's arguments (without the program name).
pub fn parse(args: &[String]) -> (r: Result<Command, String>)
    ensures
        command_result_view(r) == spec_parse(arg_views(args@)),
{
    let ghost views = arg_views(args@);
    if args.len() == 0 {
        return Ok(Command::Help);
    }
    let first = args[0].as_str();
    let rest = vstd::slice::slice_subrange(args, 1, args.len());
    proof {
        assert(arg_views(rest@) =~= views.drop_first());
        assert(views[0] == first@);
    }
    if same_text(first, "--help") {
        Ok(Command::Help)
    } else if same_text(first, "--version") {
        Ok(Command::Version)
    } else if same_text(first, "client") {
        match parse_client(rest) {
            Ok(c) => Ok(Command::Client(c)),
            Err(e) => Err(e),
        }
    } else if same_text(first, "server") {
        match parse_server(rest) {
            Ok(c) => Ok(Command::Server(c)),
            Err(e) => Err(e),
        }
    } else {
        Err(prefixed("Unknown Option or Subcommand: ", first))
    }
}

/// Text made of a fixed prefix and an argument.
fn prefixed(prefix: &str, arg: &str) -> (r: String)
    ensures
        r@ == prefix@ + arg@,
{
    let mut msg = String::from_str(prefix);
    msg.append(arg);
    msg
}

/// `None` for an empty name, which is to be prompted for.
fn optional_name(name: String) -> (r: Option<String>)
    ensures
        optional_name_view(r) == given_name(name@),
{
    if name.as_str().is_empty() {
        None
    } else {
        Some(name)
    }
}

/// Parses the arguments of the `client` subcommand.
fn parse_client(args: &[String]) -> (r: Result<ClientCommand, String>)
    ensures
        match (r, spec_parse_client(arg_views(args@))) {
            (Ok(c), Ok(v)) => c@ == v,
            (Err(e), Err(m)) => e@ == m,
            _ => false,
        },
{
    let ghost views = arg_views(args@);
    proof {
        assert(views.skip(0) =~= views);
    }
    let mut name = String::new();
    let mut flag_add = false;
    let mut i: usize = 0;
    while i < args.len()
        invariant
            views == arg_views(args@),
            i <= args@.len(),
            first_client_stop(views) == first_client_stop(views.skip(i as int)),
            name@ == last_positional(views.take(i as int)),
            flag_add == views.take(i as int).contains("--add"@),
        decreases args@.len() - i,
    {
        let arg = args[i].as_str();
        proof {
            lemma_option_literals();
            assert(views[i as int] == arg@);
            assert(views.skip(i as int).drop_first() =~= views.skip(i + 1));
            assert(views.skip(i as int)[0] == arg@);
            assert(views.take(i + 1).drop_last() =~= views.take(i as int));
            assert(views.take(i + 1).last() == arg@);
        }
        if same_text(arg, "--help") {
            return Ok(ClientCommand::Help);
        } else if same_text(arg, "--list") {
            return Ok(ClientCommand::List);
        } else if same_text(arg, "--add") {
            flag_add = true;
        } else if starts_with_two_dashes(arg) {
            return Err(prefixed("Unknown Option: ", arg));
        } else {
            name = String::from_str(arg);
        }
        proof {
            lemma_take_extend_contains(views, i as int, "--add"@);
        }
        i = i + 1;
    }
    proof {
        assert(views.take(i as int) =~= views);
        assert(views.skip(i as int) =~= Seq::<Seq<char>>::empty());
    }
    if name.as_str().is_empty() && !flag_add {
        return Ok(ClientCommand::Help);
    }
    if flag_add {
        return Ok(ClientCommand::Add { name: optional_name(name) });
    }
    Ok(ClientCommand::Connect { name })
}

/// Parses the arguments of the `server` subcommand.
fn parse_server(args: &[String]) -> (r: Result<ServerCommand, String>)
    ensures
        match (r, spec_parse_server(arg_views(args@))) {
            (Ok(c), Ok(v)) => c@ == v,
            (Err(e), Err(m)) => e@ == m,
            _ => false,
        },
{
    let ghost views = arg_views(args@);
    proof {
        assert(views.skip(0) =~= views);
    }
    let mut name = String::new();
    let mut flag_new = false;
    let mut flag_show_key = false;
    let mut i: usize = 0;
    while i < args.len()
        invariant
            views == arg_views(args@),
            i <= args@.len(),
            first_server_stop(views) == first_server_stop(views.skip(i as int)),
            name@ == last_positional(views.take(i as int)),
            flag_new == views.take(i as int).contains("--new"@),
            flag_show_key == views.take(i as int).contains("--show-key"@),
        decreases args@.len() - i,
    {
        let arg = args[i].as_str();
        proof {
            lemma_option_literals();
            assert(views[i as int] == arg@);
            assert(views.skip(i as int).drop_first() =~= views.skip(i + 1));
            assert(views.skip(i as int)[0] == arg@);
            assert(views.take(i + 1).drop_last() =~= views.take(i as int));
            assert(views.take(i + 1).last() == arg@);
        }
        if same_text(arg, "--help") {
            return Ok(ServerCommand::Help);
        } else if same_text(arg, "--list") {
            return Ok(ServerCommand::List);
        } else if same_text(arg, "--new") {
            flag_new = true;
        } else if same_text(arg, "--show-key") {
            flag_show_key = true;
        } else if starts_with_two_dashes(arg) {
            return Err(prefixed("Unknown Option: ", arg));
        } else {
            name = String::from_str(arg);
        }
        proof {
            lemma_take_extend_contains(views, i as int, "--new"@);
            lemma_take_extend_contains(views, i as int, "--show-key"@);
        }
        i = i + 1;
    }
    proof {
        assert(views.take(i as int) =~= views);
        assert(views.skip(i as int) =~= Seq::<Seq<char>>::empty());
    }
    if name.as_str().is_empty() && !flag_new && !flag_show_key {
        return Ok(ServerCommand::Help);
    }
    if flag_new && flag_show_key {
        return Err(String::from_str("--new and --show-key can't be used together"));
    }
    if flag_new {
        return Ok(ServerCommand::New { name: optional_name(name) });
    }
    if flag_show_key {
        return Ok(ServerCommand::ShowKey { name: optional_name(name) });
    }
    Ok(ServerCommand::Start { name })
}

/// Facts about the option literals: each is a long option, and they differ.
proof fn lemma_option_literals()
    ensures
        is_long_option("--help"@),
        is_long_option("--list"@),
        is_long_option("--add"@),
        is_long_option("--new"@),
        is_long_option("--show-key"@),
        "--add"@ != "--help"@,
        "--add"@ != "--list"@,
        "--new"@ != "--help"@,
        "--new"@ != "--list"@,
        "--new"@ != "--show-key"@,
        "--show-key"@ != "--help"@,
        "--show-key"@ != "--list"@,
        "--list"@ != "--help"@,
{
    reveal_strlit("--help");
    reveal_strlit("--list");
    reveal_strlit("--add");
    reveal_strlit("--new");
    reveal_strlit("--show-key");
    assert("--new"@.len() == 5 && "--show-key"@.len() == 10 && "--help"@.len() == 6);
    assert("--add"@[2] == 'a' && "--help"@[2] == 'h' && "--list"@[2] == 'l');
    assert("--new"@[2] == 'n' && "--show-key"@[2] == 's');
}

/// Extending a prefix by one element adds that element to what the prefix contains.
proof fn lemma_take_extend_contains(s: Seq<Seq<char>>, i: int, x: Seq<char>)
    requires
        0 <= i < s.len(),
    ensures
        s.take(i + 1).contains(x) == (s.take(i).contains(x) || s[i] == x),
{
    let t = s.take(i + 1);
    if s[i] == x {
        assert(t[i] == x);
    }
    if s.take(i).contains(x) {
        let k = choose|k: int| 0 <= k < i && s.take(i)[k] == x;
        assert(t[k] == x);
    }
    if t.contains(x) {
        let k = choose|k: int| 0 <= k < t.len() && t[k] == x;
        if k < i {
            assert(s.take(i)[k] == x);
        }
    }
}

/// Whether an argument leaves the `server` subcommand's parsing running: it is
/// not `--help` or `--list`, and if it is a long option it is `--new` or `--show-key`.
pub open spec fn server_passes(arg: Seq<char>) -> bool {
    arg != "--help"@ && arg != "--list"@ && (is_long_option(arg) ==> arg == "--new"@ || arg
        == "--show-key"@)
}

/// Whether an argument leaves the `client` subcommand's parsing running: it is
/// not `--help` or `--list`, and if it is a long option it is `--add`.
pub open spec fn client_passes(arg: Seq<char>) -> bool {
    arg != "--help"@ && arg != "--list"@ && (is_long_option(arg) ==> arg == "--add"@)
}

/// The server's parsing stops at the first argument that does not let it run on.
proof fn lemma_first_server_stop(a: Seq<Seq<char>>, k: int)
    requires
        0 <= k < a.len(),
        !server_passes(a[k]),
        forall|j: int| 0 <= j < k ==> server_passes(#[trigger] a[j]),
    ensures
        first_server_stop(a) == Some(a[k]),
    decreases k,
{
    if k > 0 {
        assert(server_passes(a[0]));
        lemma_first_server_stop(a.drop_first(), k - 1);
    }
}

/// The client's parsing stops at the first argument that does not let it run on.
proof fn lemma_first_client_stop(a: Seq<Seq<char>>, k: int)
    requires
        0 <= k < a.len(),
        !client_passes(a[k]),
        forall|j: int| 0 <= j < k ==> client_passes(#[trigger] a[j]),
    ensures
        first_client_stop(a) == Some(a[k]),
    decreases k,
{
    if k > 0 {
        assert(client_passes(a[0]));
        lemma_first_client_stop(a.drop_first(), k - 1);
    }
}

/// The subcommand names differ from each other and from the top-level options.
proof fn lemma_subcommand_literals()
    ensures
        "server"@ != "--help"@,
        "server"@ != "--version"@,
        "server"@ != "client"@,
        "client"@ != "--help"@,
        "client"@ != "--version"@,
{
    reveal_strlit("server");
    reveal_strlit("client");
    reveal_strlit("--help");
    reveal_strlit("--version");
    assert("server"@[0] == 's' && "client"@[0] == 'c' && "--help"@[0] == '-'
        && "--version"@[0] == '-');
}

/// `server` followed by arguments in which `--help` comes before any `--list`
/// or unknown long option asks for the server's help.
pub proof fn lemma_server_help(a: Seq<Seq<char>>, k: int)
    requires
        0 <= k < a.len(),
        a[k] == "--help"@,
        forall|j: int| 0 <= j < k ==> server_passes(#[trigger] a[j]),
    ensures
        spec_parse(seq!["server"@] + a) == Ok::<CommandView, Seq<char>>(
            CommandView::Server(ServerCommandView::Help),
        ),
{
    lemma_first_server_stop(a, k);
    lemma_subcommand_literals();
    assert((seq!["server"@] + a).drop_first() =~= a);
    assert((seq!["server"@] + a)[0] == "server"@);
}

/// `server` followed by arguments in which `--list` comes before any `--help`
/// or unknown long option asks for the list of servers.
pub proof fn lemma_server_list(a: Seq<Seq<char>>, k: int)
    requires
        0 <= k < a.len(),
        a[k] == "--list"@,
        forall|j: int| 0 <= j < k ==> server_passes(#[trigger] a[j]),
    ensures
        spec_parse(seq!["server"@] + a) == Ok::<CommandView, Seq<char>>(
            CommandView::Server(ServerCommandView::List),
        ),
{
    lemma_first_server_stop(a, k);
    lemma_subcommand_literals();
    lemma_option_literals();
    assert((seq!["server"@] + a).drop_first() =~= a);
    assert((seq!["server"@] + a)[0] == "server"@);
}

/// `client` followed by arguments in which `--help` comes before any `--list`
/// or unknown long option asks for the client's help.
pub proof fn lemma_client_help(a: Seq<Seq<char>>, k: int)
    requires
        0 <= k < a.len(),
        a[k] == "--help"@,
        forall|j: int| 0 <= j < k ==> client_passes(#[trigger] a[j]),
    ensures
        spec_parse(seq!["client"@] + a) == Ok::<CommandView, Seq<char>>(
            CommandView::Client(ClientCommandView::Help),
        ),
{
    lemma_first_client_stop(a, k);
    lemma_subcommand_literals();
    assert((seq!["client"@] + a).drop_first() =~= a);
    assert((seq!["client"@] + a)[0] == "client"@);
}

/// `client` followed by arguments in which `--list` comes before any `--help`
/// or unknown long option asks for the list of servers.
pub proof fn lemma_client_list(a: Seq<Seq<char>>, k: int)
    requires
        0 <= k < a.len(),
        a[k] == "--list"@,
        forall|j: int| 0 <= j < k ==> client_passes(#[trigger] a[j]),
    ensures
        spec_parse(seq!["client"@] + a) == Ok::<CommandView, Seq<char>>(
            CommandView::Client(ClientCommandView::List),
        ),
{
    lemma_first_client_stop(a, k);
    lemma_subcommand_literals();
    lemma_option_literals();
    assert((seq!["client"@] + a).drop_first() =~= a);
    assert((seq!["client"@] + a)[0] == "client"@);
}

/// An unknown long option met before any `--help` or `--list` is refused,
/// by name, for either subcommand.
pub proof fn lemma_unknown_option(sub: Seq<char>, a: Seq<Seq<char>>, k: int)
    requires
        sub == "client"@ || sub == "server"@,
        0 <= k < a.len(),
        is_long_option(a[k]),
        a[k] != "--help"@,
        a[k] != "--list"@,
        a[k] != "--add"@,
        a[k] != "--new"@,
        a[k] != "--show-key"@,
        forall|j: int|
            0 <= j < k ==> client_passes(#[trigger] a[j]) && server_passes(a[j]),
    ensures
        spec_parse(seq![sub] + a) == Err::<CommandView, Seq<char>>("Unknown Option: "@ + a[k]),
{
    lemma_subcommand_literals();
    assert((seq![sub] + a).drop_first() =~= a);
    assert((seq![sub] + a)[0] == sub);
    if sub == "client"@ {
        lemma_first_client_stop(a, k);
    } else {
        lemma_first_server_stop(a, k);
    }
}

} // verus!
