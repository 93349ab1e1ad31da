//! The supervisor's command line, one option at a time.
use vstd::prelude::*;
use crate::text;

verus! {

/// The option that selects the host-pipes transport; it counts only in first
/// place and is consumed elsewhere.
pub const HOST_PIPES_OPTION: &'static str = "--host-pipes";

/// The first position of `c` in `s`, or the length.
pub open spec fn find_char(s: Seq<char>, c: char) -> int
    decreases s.len(),
{
    if s.len() == 0 {
        0
    } else if s[0] == c {
        0
    } else {
        1 + find_char(s.skip(1), c)
    }
}

proof fn lemma_find_char(s: Seq<char>, c: char, k: int)
    requires
        0 <= k <= s.len(),
        forall|j: int| 0 <= j < k ==> s[j] != c,
        k < s.len() ==> s[k] == c,
    ensures
        find_char(s, c) == k,
    decreases k,
{
    if k > 0 {
        assert forall|j: int| 0 <= j < k - 1 implies s.skip(1)[j] != c by {
            assert(s.skip(1)[j] == s[j + 1]);
        }
        lemma_find_char(s.skip(1), c, k - 1);
    }
}

/// The first position of `c` in `s` from `from` on, or the length.
fn position(s: &str, from: usize, c: char) -> (k: usize)
    requires
        from <= s@.len(),
    ensures
        from <= k <= s@.len(),
        k == from + find_char(s@.skip(from as int), c),
        forall|j: int| from <= j < k ==> s@[j] != c,
        k < s@.len() ==> s@[k as int] == c,
{
    let n: usize = s.unicode_len();
    let mut k: usize = from;
    while k < n && s.get_char(k) != c
        invariant
            from <= k <= n,
            n == s@.len(),
            forall|j: int| from <= j < k ==> s@[j] != c,
        decreases n - k,
    {
        k = k + 1;
    }
    proof {
        lemma_find_char(s@.skip(from as int), c, k - from);
    }
    k
}

/// `s` with every dash turned into an underscore.
pub open spec fn underscored(s: Seq<char>) -> Seq<char> {
    Seq::new(s.len(), |i: int| if s[i] == '-' { '_' } else { s[i] })
}

fn underscore(s: &str) -> (r: String)
    ensures
        r@ == underscored(s@),
{
    let n: usize = s.unicode_len();
    let mut r = String::new();
    let mut i: usize = 0;
    proof {
        reveal_strlit("_");
        assert("_"@ =~= seq!['_']);
    }
    while i < n
        invariant
            i <= n,
            n == s@.len(),
            "_"@ =~= seq!['_'],
            r@ =~= underscored(s@.take(i as int)),
        decreases n - i,
    {
        if s.get_char(i) == '-' {
            r.append("_");
        } else {
            r.append(s.substring_char(i, i + 1));
        }
        i = i + 1;
    }
    assert(s@.take(n as int) =~= s@);
    r
}

/// The name and the value in `name=value`. Dashes in the name stand for
/// underscores; without an equals sign there is no value.
pub open spec fn long_option(s: Seq<char>) -> (Seq<char>, Option<Seq<char>>) {
    let k = find_char(s, '=');
    if k < s.len() {
        (underscored(s.take(k)), Some(s.skip(k + 1)))
    } else {
        (underscored(s), None)
    }
}

/// Splits `name=value`.
pub fn parse_long_option(optarg: &str) -> (r: (String, Option<String>))
    ensures
        r.0@ == long_option(optarg@).0,
        match (r.1, long_option(optarg@).1) {
            (Some(v), Some(w)) => v@ == w,
            (None, None) => true,
            _ => false,
        },
{
    let n: usize = optarg.unicode_len();
    let k: usize = position(optarg, 0, '=');
    assert(optarg@.skip(0) =~= optarg@);
    if k < n {
        let name = optarg.substring_char(0, k);
        let value = optarg.substring_char(k + 1, n);
        assert(optarg@.subrange(0, k as int) =~= optarg@.take(k as int));
        assert(optarg@.subrange(k + 1, n as int) =~= optarg@.skip(k + 1));
        (underscore(name), Some(String::from_str(value)))
    } else {
        (underscore(optarg), None)
    }
}

/// Joining a name without `=` and a value splits back into the two.
pub proof fn law_long_option_splits_at_first_equals(name: Seq<char>, value: Seq<char>)
    requires
        forall|i: int| 0 <= i < name.len() ==> name[i] != '=',
    ensures
        long_option(name + seq!['='] + value) == (underscored(name), Some(value)),
{
    let s = name + seq!['='] + value;
    lemma_find_char(s, '=', name.len() as int);
    assert(s.take(name.len() as int) =~= name);
    assert(s.skip(name.len() as int + 1) =~= value);
}

/// The items of a comma-separated list, trimmed, without the empty ones.
pub open spec fn list_items(s: Seq<char>) -> Seq<Seq<char>>
    decreases s.len(),
{
    let k = find_char(s, ',');
    if 0 <= k < s.len() {
        let item = text::trimmed(s.take(k));
        let rest = list_items(s.skip(k + 1));
        if item.len() > 0 {
            seq![item] + rest
        } else {
            rest
        }
    } else {
        let item = text::trimmed(s);
        if item.len() > 0 {
            seq![item]
        } else {
            Seq::empty()
        }
    }
}

/// The characters of each string.
pub open spec fn views(v: Seq<String>) -> Seq<Seq<char>> {
    v.map_values(|s: String| s@)
}

/// Splits a comma-separated list.
pub fn split_list(raw: &str) -> (r: Vec<String>)
    ensures
        views(r@) == list_items(raw@),
{
    let n: usize = raw.unicode_len();
    let mut out: Vec<String> = Vec::new();
    let mut start: usize = 0;
    let mut done = false;
    proof {
        assert(raw@.skip(0) =~= raw@);
        assert(views(out@) + list_items(raw@) =~= list_items(raw@));
    }
    while !done
        invariant
            start <= n,
            n == raw@.len(),
            !done ==> views(out@) + list_items(raw@.skip(start as int)) == list_items(raw@),
            done ==> views(out@) == list_items(raw@),
        decreases (if done { 0int } else { 1 + n - start }),
    {
        let ghost s = raw@.skip(start as int);
        let ghost before = views(out@);
        let k: usize = position(raw, start, ',');
        let item = text::trim(raw.substring_char(start, k));
        proof {
            assert(raw@.subrange(start as int, k as int) =~= s.take(k - start));
        }
        let keep = item.unicode_len() > 0;
        if keep {
            out.push(String::from_str(item));
            assert(views(out@) =~= before.push(item@));
        }
        if k < n {
            proof {
                assert(s.skip(k - start + 1) =~= raw@.skip(k + 1));
                let rest = list_items(raw@.skip(k + 1));
                if keep {
                    assert(before.push(item@) + rest =~= before + (seq![item@] + rest));
                }
            }
            start = k + 1;
        } else {
            proof {
                assert(s.take(k - start) =~= s);
                if keep {
                    assert(before.push(item@) =~= before + seq![item@]);
                } else {
                    assert(before + Seq::<Seq<char>>::empty() =~= before);
                }
            }
            done = true;
        }
    }
    out
}

/// No item of a split list is empty.
pub proof fn law_list_items_not_empty(s: Seq<char>, i: int)
    requires
        0 <= i < list_items(s).len(),
    ensures
        list_items(s)[i].len() > 0,
    decreases s.len(),
{
    let k = find_char(s, ',');
    if 0 <= k < s.len() {
        let item = text::trimmed(s.take(k));
        if item.len() > 0 {
            if i > 0 {
                law_list_items_not_empty(s.skip(k + 1), i - 1);
            }
        } else {
            law_list_items_not_empty(s.skip(k + 1), i);
        }
    }
}

/// One option, understood.
pub enum OptionStep {
    /// No option is left.
    End,
    SetConfig { name: String, value: String },
    BinaryUpgrade,
    OutputConfigVariable(String),
    DataDirectory(String),
    DebugLevel(i32),
    PlanDisabling(String),
    StatsOption(String),
    Ignored,
    /// Not an option at all.
    InvalidArgument(String),
    /// The option, which lacks its argument.
    RequiresArgument(String),
    /// A setting without a value: the option text and the whole argument.
    RequiresValue { dashes: bool, optarg: String },
    UnknownOption,
}

/// One option, in terms of its characters.
pub ghost enum OptionView {
    End,
    SetConfig(Seq<char>, Seq<char>),
    BinaryUpgrade,
    OutputConfigVariable(Seq<char>),
    DataDirectory(Seq<char>),
    DebugLevel(int),
    PlanDisabling(Seq<char>),
    StatsOption(Seq<char>),
    Ignored,
    InvalidArgument(Seq<char>),
    RequiresArgument(Seq<char>),
    RequiresValue(bool, Seq<char>),
    UnknownOption,
}

impl View for OptionStep {
    type V = OptionView;

    open spec fn view(&self) -> OptionView {
        match self {
            OptionStep::End => OptionView::End,
            OptionStep::SetConfig { name, value } => OptionView::SetConfig(name@, value@),
            OptionStep::BinaryUpgrade => OptionView::BinaryUpgrade,
            OptionStep::OutputConfigVariable(s) => OptionView::OutputConfigVariable(s@),
            OptionStep::DataDirectory(s) => OptionView::DataDirectory(s@),
            OptionStep::DebugLevel(i) => OptionView::DebugLevel(*i as int),
            OptionStep::PlanDisabling(s) => OptionView::PlanDisabling(s@),
            OptionStep::StatsOption(s) => OptionView::StatsOption(s@),
            OptionStep::Ignored => OptionView::Ignored,
            OptionStep::InvalidArgument(s) => OptionView::InvalidArgument(s@),
            OptionStep::RequiresArgument(s) => OptionView::RequiresArgument(s@),
            OptionStep::RequiresValue { dashes, optarg } => OptionView::RequiresValue(*dashes, optarg@),
            OptionStep::UnknownOption => OptionView::UnknownOption,
        }
    }
}

/// Where the options start: behind the program name, and behind the transport
/// option where that stands first.
pub open spec fn options_start(argv: Seq<Seq<char>>) -> int {
    if argv.len() > 1 && argv[1] == HOST_PIPES_OPTION@ {
        2
    } else {
        1
    }
}

/// Where the options start.
pub fn first_option(argv: &Vec<String>) -> (r: usize)
    ensures
        r == options_start(views(argv@)),
{
    if argv.len() > 1 && text::str_eq(argv[1].as_str(), HOST_PIPES_OPTION) {
        2
    } else {
        1
    }
}

/// The setting an option without an argument of its own makes.
pub open spec fn fixed_setting(opt: char) -> Option<(Seq<char>, Seq<char>)> {
    if opt == 'E' {
        Some(("log_statement"@, "all"@))
    } else if opt == 'e' {
        Some(("datestyle"@, "euro"@))
    } else if opt == 'F' {
        Some(("fsync"@, "false"@))
    } else if opt == 'i' {
        Some(("listen_addresses"@, "*"@))
    } else if opt == 'l' {
        Some(("ssl"@, "true"@))
    } else if opt == 'O' {
        Some(("allow_system_table_mods"@, "true"@))
    } else if opt == 'P' {
        Some(("ignore_system_indexes"@, "true"@))
    } else if opt == 's' {
        Some(("log_statement_stats"@, "true"@))
    } else if opt == 'T' {
        Some(("send_abort_for_crash"@, "true"@))
    } else {
        None
    }
}

/// The setting an option gives its argument to.
pub open spec fn valued_setting(opt: char) -> Option<Seq<char>> {
    if opt == 'B' {
        Some("shared_buffers"@)
    } else if opt == 'h' {
        Some("listen_addresses"@)
    } else if opt == 'k' {
        Some("unix_socket_directories"@)
    } else if opt == 'N' {
        Some("max_connections"@)
    } else if opt == 'p' {
        Some("port"@)
    } else if opt == 'S' {
        Some("work_mem"@)
    } else if opt == 'W' {
        Some("post_auth_delay"@)
    } else {
        None
    }
}

/// Whether an option takes an argument.
pub open spec fn takes_argument(opt: char) -> bool {
    valued_setting(opt) is Some || opt == 'C' || opt == '-' || opt == 'c' || opt == 'D' || opt == 'd'
        || opt == 'f' || opt == 'r' || opt == 't'
}

/// What an option with argument `v` means.
pub open spec fn with_argument(opt: char, v: Seq<char>) -> OptionView {
    if valued_setting(opt) is Some {
        OptionView::SetConfig(valued_setting(opt)->0, v)
    } else if opt == 'C' {
        OptionView::OutputConfigVariable(v)
    } else if opt == '-' || opt == 'c' {
        match long_option(v).1 {
            Some(value) => OptionView::SetConfig(long_option(v).0, value),
            None => OptionView::RequiresValue(opt == '-', v),
        }
    } else if opt == 'D' {
        OptionView::DataDirectory(v)
    } else if opt == 'd' {
        OptionView::DebugLevel(
            match text::parse_signed(v) {
                Some(i) => if i32::MIN <= i <= i32::MAX {
                    i
                } else {
                    0
                },
                None => 0,
            },
        )
    } else if opt == 'f' {
        OptionView::PlanDisabling(v)
    } else if opt == 't' {
        OptionView::StatsOption(v)
    } else {
        OptionView::Ignored
    }
}

/// What an option without an argument means.
pub open spec fn without_argument(opt: char) -> OptionView {
    match fixed_setting(opt) {
        Some((name, value)) => OptionView::SetConfig(name, value),
        None => if opt == 'b' {
            OptionView::BinaryUpgrade
        } else if opt == 'j' {
            OptionView::Ignored
        } else {
            OptionView::UnknownOption
        },
    }
}

/// What the option at `pos` means, and where the next one stands. The argument
/// of an option is the rest of its word, or else the next word.
pub open spec fn option_at(argv: Seq<Seq<char>>, pos: int) -> (OptionView, int) {
    if pos >= argv.len() {
        (OptionView::End, pos)
    } else {
        let arg = argv[pos];
        if arg.len() == 0 || arg[0] != '-' {
            (OptionView::InvalidArgument(arg), pos + 1)
        } else if arg.len() == 1 {
            (OptionView::UnknownOption, pos + 1)
        } else {
            let opt = arg[1];
            if !takes_argument(opt) {
                (without_argument(opt), pos + 1)
            } else if opt == '-' || arg.len() > 2 {
                (with_argument(opt, arg.skip(2)), pos + 1)
            } else if pos + 1 < argv.len() {
                (with_argument(opt, argv[pos + 1]), pos + 2)
            } else {
                (OptionView::RequiresArgument(seq![opt]), pos + 1)
            }
        }
    }
}

fn set(name: &str, value: &str) -> (r: OptionStep)
    ensures
        r@ == OptionView::SetConfig(name@, value@),
{
    OptionStep::SetConfig { name: String::from_str(name), value: String::from_str(value) }
}

fn option_without(opt: char) -> (r: OptionStep)
    ensures
        r@ == without_argument(opt),
{
    if opt == 'E' {
        set("log_statement", "all")
    } else if opt == 'e' {
        set("datestyle", "euro")
    } else if opt == 'F' {
        set("fsync", "false")
    } else if opt == 'i' {
        set("listen_addresses", "*")
    } else if opt == 'l' {
        set("ssl", "true")
    } else if opt == 'O' {
        set("allow_system_table_mods", "true")
    } else if opt == 'P' {
        set("ignore_system_indexes", "true")
    } else if opt == 's' {
        set("log_statement_stats", "true")
    } else if opt == 'T' {
        set("send_abort_for_crash", "true")
    } else if opt == 'b' {
        OptionStep::BinaryUpgrade
    } else if opt == 'j' {
        OptionStep::Ignored
    } else {
        OptionStep::UnknownOption
    }
}

fn option_with(opt: char, v: &str) -> (r: OptionStep)
    requires
        takes_argument(opt),
    ensures
        r@ == with_argument(opt, v@),
{
    if opt == 'B' {
        set("shared_buffers", v)
    } else if opt == 'h' {
        set("listen_addresses", v)
    } else if opt == 'k' {
        set("unix_socket_directories", v)
    } else if opt == 'N' {
        set("max_connections", v)
    } else if opt == 'p' {
        set("port", v)
    } else if opt == 'S' {
        set("work_mem", v)
    } else if opt == 'W' {
        set("post_auth_delay", v)
    } else if opt == 'C' {
        OptionStep::OutputConfigVariable(String::from_str(v))
    } else if opt == '-' || opt == 'c' {
        let (name, value) = parse_long_option(v);
        match value {
            Some(value) => OptionStep::SetConfig { name, value },
            None => OptionStep::RequiresValue { dashes: opt == '-', optarg: String::from_str(v) },
        }
    } else if opt == 'D' {
        OptionStep::DataDirectory(String::from_str(v))
    } else if opt == 'd' {
        match text::parse_i32(v) {
            Some(i) => OptionStep::DebugLevel(i),
            None => OptionStep::DebugLevel(0),
        }
    } else if opt == 'f' {
        OptionStep::PlanDisabling(String::from_str(v))
    } else if opt == 't' {
        OptionStep::StatsOption(String::from_str(v))
    } else {
        OptionStep::Ignored
    }
}

fn argument_taken(opt: char) -> (r: bool)
    ensures
        r == takes_argument(opt),
{
    opt == 'B' || opt == 'h' || opt == 'k' || opt == 'N' || opt == 'p' || opt == 'S' || opt == 'W' || opt
        == 'C' || opt == '-' || opt == 'c' || opt == 'D' || opt == 'd' || opt == 'f' || opt == 'r' || opt
        == 't'
}

/// Reads the option at `pos`; also says where the next one stands.
pub fn next_option(argv: &Vec<String>, pos: usize) -> (r: (OptionStep, usize))
    ensures
        r.0@ == option_at(views(argv@), pos as int).0,
        r.1 == option_at(views(argv@), pos as int).1,
{
    let n: usize = argv.len();
    if pos >= n {
        return (OptionStep::End, pos);
    }
    let arg = argv[pos].as_str();
    let len: usize = arg.unicode_len();
    assert(views(argv@)[pos as int] == arg@);
    if len == 0 || arg.get_char(0) != '-' {
        return (OptionStep::InvalidArgument(String::from_str(arg)), pos + 1);
    }
    if len == 1 {
        return (OptionStep::UnknownOption, pos + 1);
    }
    let opt = arg.get_char(1);
    if !argument_taken(opt) {
        return (option_without(opt), pos + 1);
    }
    if opt == '-' || len > 2 {
        let rest = arg.substring_char(2, len);
        assert(arg@.subrange(2, len as int) =~= arg@.skip(2));
        return (option_with(opt, rest), pos + 1);
    }
    if pos + 1 < n {
        assert(views(argv@)[pos + 1] == argv@[pos + 1]@);
        return (option_with(opt, argv[pos + 1].as_str()), pos + 2);
    }
    assert(arg@.subrange(1, 2) =~= seq![opt]);
    (OptionStep::RequiresArgument(String::from_str(arg.substring_char(1, 2))), pos + 1)
}

/// Reading options comes to an end: each step moves on.
pub proof fn law_options_advance(argv: Seq<Seq<char>>, pos: int)
    requires
        0 <= pos < argv.len(),
    ensures
        pos < option_at(argv, pos).1 <= argv.len(),
        !(option_at(argv, pos).0 is End),
{
}

/// What is written about an option that is refused; nothing where it is not.
pub open spec fn refusal_text(o: OptionView) -> Seq<char> {
    match o {
        OptionView::InvalidArgument(arg) => "postgres: invalid argument: \""@ + arg
            + "\"\nTry \"postgres --help\" for more information.\n"@,
        OptionView::RequiresArgument(opt) => "postgres: option requires an argument -- "@ + opt + "\n"@,
        OptionView::RequiresValue(dashes, optarg) => if dashes {
            "--"@ + optarg + " requires a value"@
        } else {
            "-c "@ + optarg + " requires a value"@
        },
        OptionView::UnknownOption => "Try \"postgres --help\" for more information.\n"@,
        _ => Seq::empty(),
    }
}

/// What is written about an option that is refused.
pub fn render_refusal(o: &OptionStep) -> (s: String)
    ensures
        s@ == refusal_text(o@),
{
    match o {
        OptionStep::InvalidArgument(arg) => {
            let mut s = String::from_str("postgres: invalid argument: \"");
            s.append(arg.as_str());
            s.append("\"\nTry \"postgres --help\" for more information.\n");
            s
        },
        OptionStep::RequiresArgument(opt) => {
            let mut s = String::from_str("postgres: option requires an argument -- ");
            s.append(opt.as_str());
            s.append("\n");
            s
        },
        OptionStep::RequiresValue { dashes, optarg } => {
            let mut s = String::from_str(if *dashes { "--" } else { "-c " });
            s.append(optarg.as_str());
            s.append(" requires a value");
            s
        },
        OptionStep::UnknownOption => String::from_str("Try \"postgres --help\" for more information.\n"),
        _ => String::new(),
    }
}

/// The code of the error about an option that is refused: a setting without a
/// value is a syntax error. The other refusals end the process and have none.
pub fn refusal_sqlstate(o: &OptionStep) -> (r: Option<&'static str>)
    ensures
        o is RequiresValue ==> (r matches Some(code) && code@ == "42601"@),
        !(o is RequiresValue) ==> r is None,
{
    match o {
        OptionStep::RequiresValue { .. } => Some("42601"),
        _ => None,
    }
}

/// What is written when the outside refuses the argument of `-f` or `-t`.
pub fn render_bad_argument(opt: &str, v: &str) -> (s: String)
    ensures
        s@ == "postgres: invalid argument for option -"@ + opt@ + ": \""@ + v@ + "\"\n"@,
{
    let mut s = String::from_str("postgres: invalid argument for option -");
    s.append(opt);
    s.append(": \"");
    s.append(v);
    s.append("\"\n");
    s
}

} // verus!
