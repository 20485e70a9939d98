//! The request head that the router sends over the websocket as text.
//!
//! The text is a request line (`METHOD PATH VERSION`) followed by header
//! lines, separated by `\n`. Every later line that holds a `:` is a header:
//! its name is the text before the first `:`, its value the text after it.
use vstd::prelude::*;
use crate::text::{first_index, before_first, after_first, lemma_first_index, chars_of,
    push_str, push_range, string_of_range, find_in};

verus! {

/// One header line: a name and a value.
pub struct Header {
    pub name: String,
    pub value: String,
}

/// What the connector takes from a request's text: the method, the target URI
/// (the service's base URI followed by the request's path), and the headers in
/// the order in which they came.
pub struct RequestHead {
    pub method: String,
    pub uri: String,
    pub headers: Vec<Header>,
}

/// The mathematical form of a `RequestHead`.
pub struct RequestHeadView {
    pub method: Seq<char>,
    pub uri: Seq<char>,
    pub headers: Seq<(Seq<char>, Seq<char>)>,
}

impl View for Header {
    type V = (Seq<char>, Seq<char>);

    open spec fn view(&self) -> (Seq<char>, Seq<char>) {
        (self.name@, self.value@)
    }
}

impl View for RequestHead {
    type V = RequestHeadView;

    open spec fn view(&self) -> RequestHeadView {
        RequestHeadView {
            method: self.method@,
            uri: self.uri@,
            headers: self.headers@.map_values(|h: Header| h@),
        }
    }
}

/// The request line: the text before the first line break.
pub open spec fn request_line(input: Seq<char>) -> Seq<char> {
    before_first(input, '\n')
}

/// The method: the request line's first space-separated field.
pub open spec fn request_method(input: Seq<char>) -> Seq<char> {
    before_first(request_line(input), ' ')
}

/// The path: the request line's second space-separated field.
pub open spec fn request_path(input: Seq<char>) -> Seq<char> {
    before_first(after_first(request_line(input), ' '), ' ')
}

/// The request line has a second field, the path.
pub open spec fn has_request_target(input: Seq<char>) -> bool {
    request_line(input).contains(' ')
}

/// The header that one line holds: none, or the text around its first `:`.
pub open spec fn header_of_line(line: Seq<char>) -> Seq<(Seq<char>, Seq<char>)> {
    if line.contains(':') {
        seq![(before_first(line, ':'), after_first(line, ':'))]
    } else {
        Seq::empty()
    }
}

/// The headers of the lines of `rest`, in order.
pub open spec fn header_lines(rest: Seq<char>) -> Seq<(Seq<char>, Seq<char>)>
    decreases rest.len(),
{
    proof {
        lemma_first_index(rest, '\n');
    }
    let here = header_of_line(before_first(rest, '\n'));
    if first_index(rest, '\n') < rest.len() {
        here + header_lines(after_first(rest, '\n'))
    } else {
        here
    }
}

/// The headers of every line after the request line.
pub open spec fn request_headers(input: Seq<char>) -> Seq<(Seq<char>, Seq<char>)> {
    if input.contains('\n') {
        header_lines(after_first(input, '\n'))
    } else {
        Seq::empty()
    }
}

/// What `parse` makes of `input` for the service at `target`.
pub open spec fn parse_request(input: Seq<char>, target: Seq<char>) -> RequestHeadView {
    RequestHeadView {
        method: request_method(input),
        uri: target + request_path(input),
        headers: request_headers(input),
    }
}

/// Whether the request line of `input` has a path, which `parse` needs.
pub fn can_parse(input: &str) -> (ok: bool)
    ensures
        ok == has_request_target(input@),
{
    let chars = chars_of(input);
    let n: usize = chars.len();
    let line_end: usize = find_in(&chars, 0, n, '\n');
    let sp: usize = find_in(&chars, 0, line_end, ' ');
    proof {
        let text = chars@;
        assert(text.subrange(0, n as int) =~= text);
        lemma_first_index(text, '\n');
        let line = request_line(text);
        assert(line =~= text.subrange(0, line_end as int));
        lemma_first_index(line, ' ');
    }
    sp < line_end
}

/// Reads the request head out of the text `input`; the URI is `target`
/// followed by the request's path.
pub fn parse(input: &str, target: &str) -> (head: RequestHead)
    requires
        has_request_target(input@),
    ensures
        head@ == parse_request(input@, target@),
{
    let chars = chars_of(input);
    let n: usize = chars.len();
    let line_end: usize = find_in(&chars, 0, n, '\n');
    let ghost text = chars@;
    let ghost line = request_line(text);
    proof {
        assert(text.subrange(0, n as int) =~= text);
        lemma_first_index(text, '\n');
        assert(line =~= text.subrange(0, line_end as int));
        lemma_first_index(line, ' ');
    }
    let sp1: usize = find_in(&chars, 0, line_end, ' ');
    let sp2: usize = find_in(&chars, sp1 + 1, line_end, ' ');
    let method = string_of_range(&chars, 0, sp1);
    let mut uri = String::new();
    push_str(&mut uri, target);
    push_range(&mut uri, &chars, sp1 + 1, sp2);
    proof {
        let rest = after_first(line, ' ');
        assert(rest =~= text.subrange(sp1 + 1, line_end as int));
        assert(before_first(rest, ' ') =~= text.subrange(sp1 + 1, sp2 as int));
        assert(method@ =~= before_first(line, ' '));
        assert(uri@ =~= target@ + request_path(text));
    }

    let mut headers: Vec<Header> = Vec::new();
    if line_end < n {
        let ghost all = text.subrange(line_end + 1, n as int);
        proof {
            assert(after_first(text, '\n') =~= all);
        }
        let mut start: usize = line_end + 1;
        loop
            invariant_except_break
                line_end < start <= n,
                n == chars@.len(),
                text == chars@,
                headers@.map_values(|h: Header| h@) + header_lines(text.subrange(start as int, n as int))
                    == header_lines(all),
            ensures
                headers@.map_values(|h: Header| h@) == header_lines(all),
            decreases n - start,
        {
            let ghost rest = text.subrange(start as int, n as int);
            let ghost before = headers@.map_values(|h: Header| h@);
            let end: usize = find_in(&chars, start, n, '\n');
            let colon: usize = find_in(&chars, start, end, ':');
            proof {
                lemma_first_index(rest, '\n');
                let l = before_first(rest, '\n');
                assert(l =~= text.subrange(start as int, end as int));
                lemma_first_index(l, ':');
            }
            if colon < end {
                let name = string_of_range(&chars, start, colon);
                let value = string_of_range(&chars, colon + 1, end);
                headers.push(Header { name, value });
                proof {
                    let l = before_first(rest, '\n');
                    assert(before_first(l, ':') =~= name@);
                    assert(after_first(l, ':') =~= value@);
                    assert(headers@.map_values(|h: Header| h@) =~= before + header_of_line(l));
                }
            } else {
                proof {
                    assert(header_of_line(before_first(rest, '\n')) =~= Seq::empty());
                    assert(before + header_of_line(before_first(rest, '\n')) =~= before);
                }
            }
            if end < n {
                proof {
                    assert(after_first(rest, '\n') =~= text.subrange(end + 1, n as int));
                    assert(header_lines(rest) == header_of_line(before_first(rest, '\n'))
                        + header_lines(text.subrange(end + 1, n as int)));
                    assert(before + header_lines(rest) =~= (before + header_of_line(
                        before_first(rest, '\n'),
                    )) + header_lines(text.subrange(end + 1, n as int)));
                }
                start = end + 1;
            } else {
                proof {
                    assert(header_lines(rest) == header_of_line(before_first(rest, '\n')));
                }
                break;
            }
        }
    } else {
        proof {
            assert(!text.contains('\n'));
            assert(headers@.map_values(|h: Header| h@) =~= Seq::<(Seq<char>, Seq<char>)>::empty());
        }
    }
    RequestHead { method, uri, headers }
}

/// The request line starts with the method, one space and the path; neither
/// holds a space or a line break, and the path ends at a space, a line break
/// or the end of the text.
pub proof fn lemma_request_line_fields(input: Seq<char>)
    requires
        has_request_target(input),
    ensures
        ({
            let m = request_method(input);
            let p = request_path(input);
            let k: int = m.len() as int + 1 + p.len() as int;
            &&& k <= input.len()
            &&& input.take(k) == m + seq![' '] + p
            &&& !m.contains(' ') && !m.contains('\n')
            &&& !p.contains(' ') && !p.contains('\n')
            &&& k < input.len() ==> (input[k] == ' ' || input[k] == '\n')
        }),
{
    let line = request_line(input);
    lemma_first_index(input, '\n');
    lemma_first_index(line, ' ');
    let m = request_method(input);
    let i = first_index(line, ' ');
    let rest = after_first(line, ' ');
    lemma_first_index(rest, ' ');
    let p = request_path(input);
    let k: int = m.len() as int + 1 + p.len() as int;
    let e = first_index(input, '\n');
    assert(line =~= input.take(e));
    assert(rest =~= input.subrange(i + 1, e));
    assert(input.take(k) =~= m + seq![' '] + p);
    assert forall|j: int| 0 <= j < m.len() implies m[j] != ' ' && m[j] != '\n' by {
        assert(m[j] == input[j]);
    }
    assert forall|j: int| 0 <= j < p.len() implies p[j] != ' ' && p[j] != '\n' by {
        assert(p[j] == rest[j]);
        assert(rest[j] == input[i + 1 + j]);
    }
    if k < input.len() {
        if k < e {
            assert(input[k] == rest[p.len() as int]);
        }
    }
}

} // verus!
