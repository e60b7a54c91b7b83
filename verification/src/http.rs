//! The computations behind serving one request: classifying the request
//! line and rendering the response head around the file contents.

use vstd::prelude::*;

verus! {

/// How one request line is answered.
#[derive(Clone, Copy, Debug, PartialEq, Eq, Structural)]
pub enum RequestKind {
    /// The root page, served immediately.
    Root,
    /// The root page, served after a deliberate delay.
    Sleep,
    /// Anything else: the error page.
    NotFound,
}

/// The kind a request line falls under.
pub open spec fn spec_classify(line: Seq<char>) -> RequestKind {
    if line == "GET / HTTP/1.1"@ {
        RequestKind::Root
    } else if line == "GET /sleep HTTP/1.1"@ {
        RequestKind::Sleep
    } else {
        RequestKind::NotFound
    }
}

/// Classifies one request line.
pub fn classify_request(line: &String) -> (k: RequestKind)
    ensures
        k == spec_classify(line@),
{
    let root = String::from_str("GET / HTTP/1.1");
    let sleep = String::from_str("GET /sleep HTTP/1.1");
    if *line == root {
        RequestKind::Root
    } else if *line == sleep {
        RequestKind::Sleep
    } else {
        RequestKind::NotFound
    }
}

/// The status line each kind of request is answered with.
pub open spec fn spec_status_line(k: RequestKind) -> Seq<char> {
    match k {
        RequestKind::NotFound => "HTTP/1.1 404 NOT FOUND"@,
        _ => "HTTP/1.1 200 OK"@,
    }
}

/// The file whose contents make the body for each kind of request.
pub open spec fn spec_file_name(k: RequestKind) -> Seq<char> {
    match k {
        RequestKind::NotFound => "error_page.html"@,
        _ => "simple_page.html"@,
    }
}

/// Picks the status line for a request: a success for both known lines, the
/// not-found status for everything else.
pub fn status_line_for(k: RequestKind) -> (s: &'static str)
    ensures
        s@ == spec_status_line(k),
{
    match k {
        RequestKind::NotFound => "HTTP/1.1 404 NOT FOUND",
        _ => "HTTP/1.1 200 OK",
    }
}

/// Picks the file to serve for a request.
pub fn file_name_for(k: RequestKind) -> (s: &'static str)
    ensures
        s@ == spec_file_name(k),
{
    match k {
        RequestKind::NotFound => "error_page.html",
        _ => "simple_page.html",
    }
}

/// The character standing for one decimal digit.
pub open spec fn digit_char(d: nat) -> char {
    if d == 0 {
        '0'
    } else if d == 1 {
        '1'
    } else if d == 2 {
        '2'
    } else if d == 3 {
        '3'
    } else if d == 4 {
        '4'
    } else if d == 5 {
        '5'
    } else if d == 6 {
        '6'
    } else if d == 7 {
        '7'
    } else if d == 8 {
        '8'
    } else {
        '9'
    }
}

/// The decimal digits of `n`, most significant first, with no leading zero
/// except for `n == 0` itself.
pub open spec fn decimal_digits(n: nat) -> Seq<char>
    decreases n,
{
    if n < 10 {
        seq![digit_char(n)]
    } else {
        decimal_digits(n / 10).push(digit_char(n % 10))
    }
}

/// One decimal digit as a string.
fn digit_str(d: usize) -> (s: &'static str)
    requires
        d < 10,
    ensures
        s@ == seq![digit_char(d as nat)],
{
    if d == 0 {
        proof {
            reveal_strlit("0");
            assert("0"@ =~= seq![digit_char(d as nat)]);
        }
        "0"
    } else if d == 1 {
        proof {
            reveal_strlit("1");
            assert("1"@ =~= seq![digit_char(d as nat)]);
        }
        "1"
    } else if d == 2 {
        proof {
            reveal_strlit("2");
            assert("2"@ =~= seq![digit_char(d as nat)]);
        }
        "2"
    } else if d == 3 {
        proof {
            reveal_strlit("3");
            assert("3"@ =~= seq![digit_char(d as nat)]);
        }
        "3"
    } else if d == 4 {
        proof {
            reveal_strlit("4");
            assert("4"@ =~= seq![digit_char(d as nat)]);
        }
        "4"
    } else if d == 5 {
        proof {
            reveal_strlit("5");
            assert("5"@ =~= seq![digit_char(d as nat)]);
        }
        "5"
    } else if d == 6 {
        proof {
            reveal_strlit("6");
            assert("6"@ =~= seq![digit_char(d as nat)]);
        }
        "6"
    } else if d == 7 {
        proof {
            reveal_strlit("7");
            assert("7"@ =~= seq![digit_char(d as nat)]);
        }
        "7"
    } else if d == 8 {
        proof {
            reveal_strlit("8");
            assert("8"@ =~= seq![digit_char(d as nat)]);
        }
        "8"
    } else {
        proof {
            reveal_strlit("9");
            assert("9"@ =~= seq![digit_char(d as nat)]);
        }
        "9"
    }
}

/// Writes `n` in decimal.
pub fn usize_to_decimal(n: usize) -> (s: String)
    ensures
        s@ == decimal_digits(n as nat),
    decreases n,
{
    if n < 10 {
        String::from_str(digit_str(n))
    } else {
        let mut s = usize_to_decimal(n / 10);
        s.append(digit_str(n % 10));
        proof {
            assert(decimal_digits((n as nat) / 10) + seq![digit_char((n as nat) % 10)]
                =~= decimal_digits(n as nat));
        }
        s
    }
}

/// The whole response for a body of `body_len` bytes: the status line, the
/// content-length header, a blank line, and the body.
pub open spec fn spec_response(status: Seq<char>, body_len: nat, contents: Seq<char>) -> Seq<
    char,
> {
    status + "\r\nContent-Length: "@ + decimal_digits(body_len) + "\r\n\r\n"@ + contents
}

/// Renders the response around the file contents, announcing the body's
/// byte length in the content-length header.
pub fn render_response(status_line: &str, contents: &str) -> (r: String)
    ensures
        r@ == spec_response(status_line@, contents.len() as nat, contents@),
{
    let mut r = status_line.to_owned();
    r.append("\r\nContent-Length: ");
    let digits = usize_to_decimal(contents.len());
    r.append(digits.as_str());
    r.append("\r\n\r\n");
    r.append(contents);
    proof {
        assert(r@ =~= spec_response(status_line@, contents.len() as nat, contents@));
    }
    r
}

} // verus!
