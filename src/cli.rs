use vstd::prelude::*;

verus! {

/// The subcommands of the command-line dispatcher.
#[derive(Clone, Copy, PartialEq, Eq, Structural, Debug)]
pub enum Program {
    Help,
    Example,
}

/// The subcommand a name selects: `example`, or help for anything else.
pub open spec fn program_named(name: Seq<char>) -> Program {
    if name == "example"@ {
        Program::Example
    } else {
        Program::Help
    }
}

/// Whether two strings hold the same characters.
pub fn same_text(a: &str, b: &str) -> (r: bool)
    ensures
        r == (a@ == b@),
{
    let n = a.unicode_len();
    if n != b.unicode_len() {
        return false;
    }
    let mut i: usize = 0;
    while i < n
        invariant
            i <= n,
            n == a@.len(),
            n == b@.len(),
            forall|k: int| 0 <= k < i ==> a@[k] == b@[k],
        decreases n - i,
    {
        if a.get_char(i) != b.get_char(i) {
            return false;
        }
        i = i + 1;
    }
    assert(a@ =~= b@);
    true
}

/// The subcommand that `name` selects.
pub fn name_to_program(name: &str) -> (r: Program)
    ensures
        r == program_named(name@),
{
    if same_text(name, "example") {
        Program::Example
    } else {
        Program::Help
    }
}

/// What the dispatcher runs for the arguments `args`: a leading `tc` (the
/// tool's own name) is dropped; the next argument names the subcommand and
/// the rest is handed to it; with nothing left, help runs with no arguments.
pub open spec fn dispatch_spec(args: Seq<Seq<char>>) -> (Program, Seq<Seq<char>>) {
    let rest = if args.len() > 0 && args[0] == "tc"@ {
        args.drop_first()
    } else {
        args
    };
    if rest.len() == 0 {
        (Program::Help, Seq::empty())
    } else {
        (program_named(rest[0]), rest.drop_first())
    }
}

pub open spec fn strings_view(v: Seq<String>) -> Seq<Seq<char>> {
    v.map_values(|s: String| s@)
}

/// Chooses the subcommand and its arguments.
pub fn dispatch(args: &Vec<String>) -> (r: (Program, Vec<String>))
    ensures
        r.0 == dispatch_spec(strings_view(args@)).0,
        strings_view(r.1@) == dispatch_spec(strings_view(args@)).1,
{
    let ghost v = strings_view(args@);
    let mut start: usize = 0;
    if args.len() > 0 && same_text(args[0].as_str(), "tc") {
        start = 1;
    }
    if start >= args.len() {
        let empty: Vec<String> = Vec::new();
        assert(strings_view(empty@) =~= Seq::<Seq<char>>::empty());
        return (Program::Help, empty);
    }
    let prog = name_to_program(args[start].as_str());
    let mut rest: Vec<String> = Vec::new();
    let mut i: usize = start + 1;
    while i < args.len()
        invariant
            start + 1 <= i <= args@.len(),
            strings_view(rest@) == v.subrange(start + 1, i as int),
            v == strings_view(args@),
        decreases args@.len() - i,
    {
        let s = args[i].clone();
        assert(s@ == v[i as int]);
        let ghost before = rest@;
        rest.push(s);
        assert(strings_view(rest@) =~= strings_view(before).push(v[i as int]));
        assert(v.subrange(start + 1, i + 1) =~= v.subrange(start + 1, i as int).push(v[i as int]));
        i = i + 1;
    }
    proof {
        let t = if v.len() > 0 && v[0] == "tc"@ { v.drop_first() } else { v };
        assert(t =~= v.subrange(start as int, v.len() as int));
        assert(t.drop_first() =~= v.subrange(start + 1, v.len() as int));
    }
    (prog, rest)
}

} // verus!
