//! Requests and the responses to them.

use regex::Regex;
use vstd::prelude::*;
use vstd::string::*;
use vstd::utf8::encode_utf8;

use crate::text::{chars_of, skip_spaces, skip_word, words, words_from};

verus! {

/// The `n`-th word of `text`, counted from zero, or the empty text where it
/// has no such word.
pub open spec fn word_or_empty(text: Seq<char>, n: int) -> Seq<char> {
    if 0 <= n < words(text).len() {
        words(text)[n]
    } else {
        Seq::empty()
    }
}

/// Represents a request made to a listener.
pub struct Request {
    /// The path requested.
    path: String,
}

impl Request {
    /// The path requested.
    pub closed spec fn spec_path(&self) -> Seq<char> {
        self.path@
    }

    /// Splits the text of a request at white space and returns its first
    /// word, its third word and an empty text, in this order. A word that the
    /// text does not have is returned as the empty text.
    pub fn parse_request(text: String) -> (parts: (String, String, String))
        ensures
            parts.0@ == word_or_empty(text@, 0),
            parts.1@ == word_or_empty(text@, 2),
            parts.2@ == Seq::<char>::empty(),
    {
        let chars = chars_of(text.as_str());
        let first_start = skip_spaces(&chars, 0);
        let first_end = skip_word(&chars, first_start);
        let second_start = skip_spaces(&chars, first_end);
        let second_end = skip_word(&chars, second_start);
        let third_start = skip_spaces(&chars, second_end);
        let third_end = skip_word(&chars, third_start);
        let first = String::from_str(text.as_str().substring_char(first_start, first_end));
        let third = String::from_str(text.as_str().substring_char(third_start, third_end));
        proof {
            let s = text@;
            let after_first = words_from(s, first_end as int);
            let after_second = words_from(s, second_end as int);
            let after_third = words_from(s, third_end as int);
            assert(words_from(s, 0) =~= if first_start < s.len() {
                seq![s.subrange(first_start as int, first_end as int)] + after_first
            } else {
                Seq::empty()
            });
            assert(after_first =~= if second_start < s.len() {
                seq![s.subrange(second_start as int, second_end as int)] + after_second
            } else {
                Seq::empty()
            });
            assert(after_second =~= if third_start < s.len() {
                seq![s.subrange(third_start as int, third_end as int)] + after_third
            } else {
                Seq::empty()
            });
            assert(first@ =~= word_or_empty(s, 0));
            assert(third@ =~= word_or_empty(s, 2));
        }
        (first, third, String::new())
    }

    /// The request that `text` asks for: its path is the second part that
    /// `parse_request` returns.
    pub fn from(text: String) -> (request: Request)
        ensures
            request.spec_path() == word_or_empty(text@, 2),
    {
        let (_method, path, _http_version) = Request::parse_request(text);
        Request { path }
    }

    /// The path requested.
    pub fn path(&self) -> (path: &str)
        ensures
            path@ == self.spec_path(),
    {
        self.path.as_str()
    }
}

/// What `Regex::new` and `Regex::is_match` make of an expression and a text:
/// `None` where the expression does not compile, otherwise whether it
/// matches anywhere in the text.
pub uninterp spec fn regex_search(expression: Seq<char>, text: Seq<char>) -> Option<bool>;

/// Compiles `expression` with `Regex::new` and looks for a match in `text`
/// with `Regex::is_match`. Both depend on their arguments alone, so the
/// answer is given a name; nothing more is claimed of it.
#[verifier::external_body]
fn search(expression: &str, text: &str) -> (found: Option<bool>)
    ensures
        found == regex_search(expression@, text@),
{
    match Regex::new(expression) {
        Ok(regex) => Some(regex.is_match(text)),
        Err(_) => None,
    }
}

/// A route whose expression is no regular expression.
#[derive(Debug, Clone, Copy, PartialEq, Eq, Structural)]
pub struct InvalidExpression {
    /// The place of the route in the list of routes.
    pub index: usize,
}

/// Whether the search through `routes` for `path` ends at `index`: no route
/// before it matches, and the one there matches or does not compile.
pub open spec fn search_ends_at(path: Seq<char>, routes: Seq<(&str, &str)>, index: int) -> bool {
    &&& 0 <= index < routes.len()
    &&& regex_search(routes[index].0@, path) != Some(false)
    &&& forall|earlier: int|
        0 <= earlier < index ==> regex_search(#[trigger] routes[earlier].0@, path) == Some(false)
}

/// Whether no route of `routes` matches `path`, all of them being regular
/// expressions.
pub open spec fn no_route_matches(path: Seq<char>, routes: Seq<(&str, &str)>) -> bool {
    forall|index: int|
        0 <= index < routes.len() ==> regex_search(#[trigger] routes[index].0@, path) == Some(
            false,
        )
}

/// What `Response::settle` answers.
pub open spec fn settled(index: usize, outcome: Option<bool>) -> Option<
    Result<Option<usize>, InvalidExpression>,
> {
    match outcome {
        Some(true) => Some(Ok(Some(index))),
        Some(false) => None,
        None => Some(Err(InvalidExpression { index })),
    }
}

/// The text of a response with the given status and payload.
pub open spec fn response_text(status: Seq<char>, payload: Seq<char>) -> Seq<char> {
    "HTTP/1.1 "@ + status + "\r\n\r\n"@ + payload
}

/// Represents a response to be sent to a stream.
pub struct Response {
    status: String,
    payload: String,
}

impl Response {
    /// The status line's text, empty where no route matched.
    pub closed spec fn spec_status(&self) -> Seq<char> {
        self.status@
    }

    /// The body.
    pub closed spec fn spec_payload(&self) -> Seq<char> {
        self.payload@
    }

    /// How a search goes on once the route at `index` has been tried and
    /// `outcome` is what its expression gave: the answer of the whole search
    /// where it ends at this route, and `None` where the next route is to be
    /// tried.
    pub fn settle(index: usize, outcome: Option<bool>) -> (answer: Option<
        Result<Option<usize>, InvalidExpression>,
    >)
        ensures
            answer == settled(index, outcome),
    {
        match outcome {
            Some(true) => Some(Ok(Some(index))),
            Some(false) => None,
            None => Some(Err(InvalidExpression { index })),
        }
    }

    /// Finds the route that answers `request`: the first one in `paths`
    /// whose expression matches the request's path. Each route is a regular
    /// expression and the name of a file. The routes are tried in order, and
    /// none is tried after the one that ends the search.
    ///
    /// Returns the place of that route, `None` where no route matches, and
    /// an error where an expression that does not compile is met before any
    /// match.
    pub fn route(request: &Request, paths: &Vec<(&str, &str)>) -> (found: Result<
        Option<usize>,
        InvalidExpression,
    >)
        ensures
            match found {
                Ok(Some(index)) => search_ends_at(request.spec_path(), paths@, index as int)
                    && regex_search(paths@[index as int].0@, request.spec_path()) == Some(true),
                Ok(None) => no_route_matches(request.spec_path(), paths@),
                Err(error) => search_ends_at(request.spec_path(), paths@, error.index as int)
                    && regex_search(paths@[error.index as int].0@, request.spec_path()) is None,
            },
    {
        let mut index: usize = 0;
        while index < paths.len()
            invariant
                index <= paths.len(),
                forall|earlier: int|
                    0 <= earlier < index ==> regex_search(
                        #[trigger] paths@[earlier].0@,
                        request.spec_path(),
                    ) == Some(false),
            decreases paths.len() - index,
        {
            let outcome = search(paths[index].0, request.path());
            match Response::settle(index, outcome) {
                Some(answer) => {
                    return answer;
                },
                None => {},
            }
            index += 1;
        }
        Ok(None)
    }

    /// The response that serves `file`, the content of the file of the route
    /// that `route` found: status `200 OK` with the content as payload.
    /// Without a file, status and payload are empty.
    pub fn new(file: Option<String>) -> (response: Response)
        ensures
            file matches Some(content) ==> response.spec_status() == "200 OK"@
                && response.spec_payload() == content@,
            file is None ==> response.spec_status() == Seq::<char>::empty()
                && response.spec_payload() == Seq::<char>::empty(),
    {
        match file {
            Some(content) => Response { status: String::from_str("200 OK"), payload: content },
            None => Response { status: String::new(), payload: String::new() },
        }
    }

    /// The status line's text.
    pub fn status(&self) -> (status: &str)
        ensures
            status@ == self.spec_status(),
    {
        self.status.as_str()
    }

    /// The body.
    pub fn payload(&self) -> (payload: &str)
        ensures
            payload@ == self.spec_payload(),
    {
        self.payload.as_str()
    }

    /// Writes the response to the end of `stream`, as the bytes of its
    /// text in UTF-8.
    pub fn send(&self, stream: &mut Vec<u8>)
        ensures
            final(stream)@ == old(stream)@ + encode_utf8(
                response_text(self.spec_status(), self.spec_payload()),
            ),
    {
        let mut text = String::from_str("HTTP/1.1 ");
        text.append(self.status.as_str());
        text.append("\r\n\r\n");
        text.append(self.payload.as_str());
        let mut bytes = text.as_str().as_bytes_vec();
        stream.append(&mut bytes);
    }
}

} // verus!
