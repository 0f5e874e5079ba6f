use vstd::prelude::*;

verus! {

// ---------------------------------------------------------------------------
// The socket client: one connection, one request. In GET mode it asks for
// the synchronized value and prints the reply; in SET mode it sends the
// whole of its standard input, joined by line feeds, as the new value.
// The connecting and the reading of the reply are I/O and live with the
// caller; here stand the request texts themselves.
// ---------------------------------------------------------------------------

/// Whether a command-line argument selects GET (output) mode.
pub open spec fn selects_get(arg: Seq<char>) -> bool {
    arg == "-o"@
}

/// The lines of a client's standard input, joined by line feeds, as the SET
/// payload.
pub open spec fn joined(lines: Seq<Seq<char>>) -> Seq<char>
    decreases lines.len(),
{
    if lines.len() == 0 {
        Seq::empty()
    } else if lines.len() == 1 {
        lines[0]
    } else {
        joined(lines.drop_last()) + seq!['\n'] + lines.last()
    }
}

/// Whether this command-line argument puts the client in GET mode.
pub fn is_get_flag(arg: &str) -> (b: bool)
    ensures
        b == selects_get(arg@),
{
    proof {
        reveal_strlit("-o");
    }
    let n = arg.unicode_len();
    if n != 2 {
        return false;
    }
    let b = arg.get_char(0) == '-' && arg.get_char(1) == 'o';
    proof {
        if b {
            assert(arg@ =~= "-o"@);
        } else {
            assert(arg@ != "-o"@);
        }
    }
    b
}

/// The one-line request a GET-mode client sends.
pub fn make_get_request() -> (r: String)
    ensures
        r@ == "GET\n"@,
{
    String::from_str("GET\n")
}

/// The request a SET-mode client sends for this payload.
pub fn make_set_request(payload: &str) -> (r: String)
    ensures
        r@ == "SET "@ + payload@,
{
    let mut r = String::from_str("SET ");
    r.append(payload);
    r
}

/// Join the lines read from standard input into the SET payload.
#[verifier::loop_isolation(false)]
pub fn join_lines(lines: &Vec<String>) -> (r: String)
    ensures
        r@ == joined(lines.deep_view()),
{
    let ghost dv: Seq<Seq<char>> = lines.deep_view();
    let mut r = String::new();
    let mut i: usize = 0;
    while i < lines.len()
        invariant
            i <= lines@.len(),
            dv == lines.deep_view(),
            r@ == joined(dv.take(i as int)),
        decreases lines@.len() - i,
    {
        if i > 0 {
            r.push('\n');
        }
        r.append(lines[i].as_str());
        proof {
            assert(dv.take(i as int + 1).drop_last() =~= dv.take(i as int));
            assert(dv.take(i as int + 1).last() == dv[i as int]);
            if i == 0 {
                assert(joined(dv.take(1)) == dv[0]);
                assert(r@ =~= dv[0]);
            } else {
                assert(r@ =~= joined(dv.take(i as int)) + seq!['\n'] + dv[i as int]);
            }
        }
        i += 1;
    }
    proof {
        assert(dv.take(dv.len() as int) =~= dv);
    }
    r
}

} // verus!
