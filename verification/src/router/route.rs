use vstd::prelude::*;
use vstd::std_specs::cmp::PartialEqSpecImpl;
use crate::http::text::push_char;
use crate::http::Method;
use crate::request::Request;

verus! {

/// The error type of the `regex` crate.
#[verifier::external_type_specification]
#[verifier::external_body]
pub struct ExPatternError(regex::Error);

/// Why a path is no route.
#[derive(Debug)]
pub enum RegexError {
    /// The pattern made of the path is no regular expression.
    Build(regex::Error),
    /// The path does not have the shape of a route.
    Match,
}

/// Whether the `regex` crate accepts a pattern.
pub uninterp spec fn regex_compiles(pattern: Seq<char>) -> bool;

/// Whether a text matches a pattern, to the `regex` crate; nothing when the
/// crate does not accept the pattern.
pub uninterp spec fn regex_match(pattern: Seq<char>, text: Seq<char>) -> Option<bool>;

/// What the named groups of a pattern capture in a text, to the `regex`
/// crate, one entry for each name asked for; nothing when the crate does not
/// accept the pattern or the text does not match.
pub uninterp spec fn regex_captures(
    pattern: Seq<char>,
    text: Seq<char>,
    names: Seq<Seq<char>>,
) -> Option<Seq<Option<Seq<char>>>>;

/// What a list of texts holds.
pub open spec fn texts(list: Seq<String>) -> Seq<Seq<char>> {
    Seq::new(list.len(), |i: int| list[i]@)
}

/// What a list of captures holds.
pub open spec fn captures_view(r: Option<Vec<Option<String>>>) -> Option<Seq<Option<Seq<char>>>> {
    match r {
        Some(values) => Some(
            Seq::new(
                values.len() as nat,
                |i: int|
                    match values[i] {
                        Some(v) => Some(v@),
                        None => None,
                    },
            ),
        ),
        None => None,
    }
}

/// `regex::Regex::new`: the error with which the crate refuses the pattern,
/// or nothing when it accepts it.
#[verifier::external_body]
fn refusal_of(pattern: &str) -> (r: Option<regex::Error>)
    ensures
        r is None <==> regex_compiles(pattern@),
{
    regex::Regex::new(pattern).err()
}

/// `regex::Regex::is_match`, on the pattern compiled by `regex::Regex::new`:
/// whether the pattern matches somewhere in the text; nothing when the
/// crate does not accept the pattern.
#[verifier::external_body]
fn pattern_matches(pattern: &str, text: &str) -> (r: Option<bool>)
    ensures
        r == regex_match(pattern@, text@),
{
    regex::Regex::new(pattern).ok().map(|re| re.is_match(text))
}

/// `regex::Regex::captures` and `regex::Captures::name`, on the pattern
/// compiled by `regex::Regex::new`: what the group of each name captured in
/// the leftmost match, in the order of the names.
#[verifier::external_body]
fn pattern_captures(pattern: &str, text: &str, names: &Vec<String>) -> (r: Option<
    Vec<Option<String>>,
>)
    ensures
        captures_view(r) == regex_captures(pattern@, text@, texts(names@)),
        r matches Some(values) ==> values.len() == names.len(),
{
    let re = regex::Regex::new(pattern).ok()?;
    let caps = re.captures(text)?;
    Some(names.iter().map(|n| caps.name(n).map(|m| m.as_str().to_string())).collect())
}

/// Whether a path has the shape of a route: it begins with a slash and
/// holds no question mark.
pub open spec fn valid_route(path: Seq<char>) -> bool {
    path.len() > 0 && path[0] == '/' && forall|i: int| 0 <= i < path.len() ==> path[i] != '?'
}

/// The place of the first slash at or behind `from`, or the length of the
/// path if there is none.
pub open spec fn next_slash(path: Seq<char>, from: int) -> int
    decreases path.len() - from,
{
    if from < 0 || from >= path.len() {
        path.len() as int
    } else if path[from] == '/' {
        from
    } else {
        next_slash(path, from + 1)
    }
}

/// Whether a character is a brace.
pub open spec fn is_brace(c: char) -> bool {
    c == '{' || c == '}'
}

/// The place of the first character at or behind `i` that is no brace.
pub open spec fn first_plain(s: Seq<char>, i: int) -> int
    decreases s.len() - i,
{
    if i < 0 || i >= s.len() {
        s.len() as int
    } else if !is_brace(s[i]) {
        i
    } else {
        first_plain(s, i + 1)
    }
}

/// The place behind the last character before `j`, and not before `lo`,
/// that is no brace.
pub open spec fn last_plain(s: Seq<char>, lo: int, j: int) -> int
    decreases j,
{
    if lo < 0 || j <= lo || j > s.len() {
        lo
    } else if !is_brace(s[j - 1]) {
        j
    } else {
        last_plain(s, lo, j - 1)
    }
}

/// A segment without the braces at its beginning and at its end.
pub open spec fn unbraced(segment: Seq<char>) -> Seq<char> {
    let a = first_plain(segment, 0);
    segment.subrange(a, last_plain(segment, a, segment.len() as int))
}

/// Whether a segment of a path stands for a parameter: it begins with an
/// opening brace and ends with a closing one.
pub open spec fn is_parameter(segment: Seq<char>) -> bool {
    segment.len() > 0 && segment[0] == '{' && segment.last() == '}'
}

/// What a segment of a path adds to the pattern: a named group that takes
/// any run without slash and question mark for a parameter, the segment
/// itself behind a slash otherwise, and nothing when it is empty.
pub open spec fn piece(segment: Seq<char>) -> Seq<char> {
    if is_parameter(segment) {
        "/(?P<"@ + unbraced(segment) + ">[^/?]*)"@
    } else if segment.len() > 0 {
        seq!['/'] + segment
    } else {
        Seq::empty()
    }
}

/// What the segments of a path from `from` on add to the pattern.
pub open spec fn pieces(path: Seq<char>, from: int) -> Seq<char>
    decreases path.len() - from,
{
    let end = next_slash(path, from);
    if from < 0 || from > path.len() || end < from {
        Seq::empty()
    } else if end >= path.len() {
        piece(path.subrange(from, path.len() as int))
    } else {
        piece(path.subrange(from, end)) + pieces(path, end + 1)
    }
}

/// The names of the parameters among the segments of a path from `from` on.
pub open spec fn parameter_names(path: Seq<char>, from: int) -> Seq<Seq<char>>
    decreases path.len() - from,
{
    let end = next_slash(path, from);
    if from < 0 || from > path.len() || end < from {
        Seq::empty()
    } else {
        let stop = if end >= path.len() {
            path.len() as int
        } else {
            end
        };
        let segment = path.subrange(from, stop);
        let here = if is_parameter(segment) {
            seq![unbraced(segment)]
        } else {
            Seq::empty()
        };
        if end >= path.len() {
            here
        } else {
            here + parameter_names(path, end + 1)
        }
    }
}

/// The pattern of a route: what its segments add, between the anchors of
/// the beginning and the end; a path without segments matches the root.
pub open spec fn route_pattern(path: Seq<char>) -> Seq<char> {
    if pieces(path, 0).len() == 0 {
        "^"@ + seq!['/'] + seq!['$']
    } else {
        "^"@ + pieces(path, 0) + seq!['$']
    }
}

/// A text without the slashes at its end.
pub open spec fn without_trailing_slashes(s: Seq<char>) -> Seq<char>
    decreases s.len(),
{
    if s.len() > 0 && s.last() == '/' {
        without_trailing_slashes(s.drop_last())
    } else {
        s
    }
}

/// The characters of a text.
pub fn chars_of(s: &str) -> (r: Vec<char>)
    ensures
        r@ == s@,
{
    let n = s.unicode_len();
    let mut out: Vec<char> = Vec::new();
    let mut i: usize = 0;
    while i < n
        invariant
            i <= n,
            n == s@.len(),
            out@ == s@.subrange(0, i as int),
        decreases n - i,
    {
        out.push(s.get_char(i));
        assert(out@ =~= s@.subrange(0, i + 1));
        i = i + 1;
    }
    assert(s@.subrange(0, n as int) =~= s@);
    out
}

/// Appends the characters from `from` up to `to` to a text.
fn push_chars(out: &mut String, chars: &Vec<char>, from: usize, to: usize)
    requires
        from <= to <= chars.len(),
    ensures
        final(out)@ == old(out)@ + chars@.subrange(from as int, to as int),
{
    let mut i: usize = from;
    assert(out@ =~= old(out)@ + chars@.subrange(from as int, from as int));
    while i < to
        invariant
            from <= i <= to <= chars.len(),
            out@ == old(out)@ + chars@.subrange(from as int, i as int),
        decreases to - i,
    {
        push_char(out, chars[i]);
        assert(out@ =~= old(out)@ + chars@.subrange(from as int, i + 1));
        i = i + 1;
    }
}

/// The place of the first slash at or behind `from`.
fn find_slash(path: &Vec<char>, from: usize) -> (p: usize)
    requires
        from <= path.len(),
    ensures
        p == next_slash(path@, from as int),
        from <= p <= path.len(),
{
    let mut i: usize = from;
    while i < path.len()
        invariant
            from <= i <= path.len(),
            next_slash(path@, from as int) == next_slash(path@, i as int),
        decreases path.len() - i,
    {
        if path[i] == '/' {
            return i;
        }
        i = i + 1;
    }
    i
}

/// Where a segment stands once the braces at its beginning and at its end
/// are set aside.
fn unbraced_range(path: &Vec<char>, from: usize, to: usize) -> (r: (usize, usize))
    requires
        from <= to <= path.len(),
    ensures
        from <= r.0 <= r.1 <= to,
        path@.subrange(r.0 as int, r.1 as int) == unbraced(path@.subrange(from as int, to as int)),
{
    let ghost segment = path@.subrange(from as int, to as int);
    let mut a: usize = from;
    while a < to && (path[a] == '{' || path[a] == '}')
        invariant
            from <= a <= to <= path.len(),
            segment == path@.subrange(from as int, to as int),
            first_plain(segment, 0) == first_plain(segment, a - from),
        decreases to - a,
    {
        assert(segment[a - from] == path[a as int]);
        a = a + 1;
    }
    assert(first_plain(segment, 0) == a - from) by {
        if a < to {
            assert(segment[a - from] == path[a as int]);
        }
    }
    let mut b: usize = to;
    while b > a && (path[b - 1] == '{' || path[b - 1] == '}')
        invariant
            from <= a <= b <= to <= path.len(),
            segment == path@.subrange(from as int, to as int),
            last_plain(segment, a - from, segment.len() as int) == last_plain(
                segment,
                a - from,
                b - from,
            ),
        decreases b,
    {
        assert(segment[b - 1 - from] == path[b - 1]);
        b = b - 1;
    }
    assert(last_plain(segment, a - from, segment.len() as int) == b - from) by {
        if b > a {
            assert(segment[b - 1 - from] == path[b - 1]);
        }
    }
    assert(path@.subrange(a as int, b as int) =~= segment.subrange(a - from, b - from));
    (a, b)
}

/// Whether a path has the shape of a route.
fn has_shape(chars: &Vec<char>) -> (r: bool)
    ensures
        r == valid_route(chars@),
{
    if chars.len() == 0 || chars[0] != '/' {
        return false;
    }
    let mut i: usize = 0;
    while i < chars.len()
        invariant
            i <= chars.len(),
            forall|j: int| 0 <= j < i ==> chars[j] != '?',
        decreases chars.len() - i,
    {
        if chars[i] == '?' {
            return false;
        }
        i = i + 1;
    }
    true
}

/// The names of the parameters of a path and the pattern made of it. The
/// path has to begin with a slash and to hold no question mark; the pattern
/// has to be accepted by the `regex` crate.
pub fn route_to_regex(path: &str) -> (r: Result<(Vec<String>, String), RegexError>)
    ensures
        match r {
            Ok((names, pattern)) => {
                &&& valid_route(path@)
                &&& regex_compiles(route_pattern(path@))
                &&& pattern@ == route_pattern(path@)
                &&& texts(names@) == parameter_names(path@, 0)
            },
            Err(RegexError::Match) => !valid_route(path@),
            Err(RegexError::Build(_)) => valid_route(path@) && !regex_compiles(route_pattern(path@)),
        },
{
    let chars = chars_of(path);
    if !has_shape(&chars) {
        return Err(RegexError::Match);
    }
    let mut pattern = String::new();
    pattern.append("^");
    let mut parameters: Vec<String> = Vec::new();
    let mut from: usize = 0;
    let mut more = true;
    assert(texts(parameters@) =~= Seq::<Seq<char>>::empty());
    assert(pattern@ =~= "^"@);
    while more
        invariant
            chars@ == path@,
            from <= chars.len(),
            more ==> "^"@ + pieces(path@, 0) == pattern@ + pieces(path@, from as int),
            more ==> parameter_names(path@, 0) == texts(parameters@) + parameter_names(
                path@,
                from as int,
            ),
            !more ==> "^"@ + pieces(path@, 0) == pattern@,
            !more ==> parameter_names(path@, 0) == texts(parameters@),
        decreases chars.len() - from + (if more { 1int } else { 0int }),
    {
        let end = find_slash(&chars, from);
        let ghost segment = chars@.subrange(from as int, end as int);
        let ghost before = pattern@;
        let ghost names = texts(parameters@);
        if end > from && chars[from] == '{' && chars[end - 1] == '}' {
            assert(segment[0] == chars[from as int] && segment.last() == chars[end - 1]);
            let (a, b) = unbraced_range(&chars, from, end);
            let mut name = String::new();
            push_chars(&mut name, &chars, a, b);
            assert(name@ =~= unbraced(segment));
            pattern.append("/(?P<");
            pattern.append(name.as_str());
            pattern.append(">[^/?]*)");
            parameters.push(name);
            assert(pattern@ =~= before + piece(segment));
            assert(texts(parameters@) =~= names + seq![unbraced(segment)]);
        } else if end > from {
            assert(segment[0] == chars[from as int] && segment.last() == chars[end - 1]);
            push_char(&mut pattern, '/');
            push_chars(&mut pattern, &chars, from, end);
            assert(pattern@ =~= before + piece(segment));
            assert(texts(parameters@) =~= names + Seq::<Seq<char>>::empty());
        } else {
            assert(pattern@ =~= before + piece(segment));
            assert(texts(parameters@) =~= names + Seq::<Seq<char>>::empty());
        }
        proof {
            let tail = if end < chars.len() {
                pieces(path@, end + 1)
            } else {
                Seq::<char>::empty()
            };
            assert(pieces(path@, from as int) =~= piece(segment) + tail);
            assert(before + (piece(segment) + tail) =~= (before + piece(segment)) + tail);
            let here = if is_parameter(segment) {
                seq![unbraced(segment)]
            } else {
                Seq::<Seq<char>>::empty()
            };
            let rest = if end < chars.len() {
                parameter_names(path@, end + 1)
            } else {
                Seq::<Seq<char>>::empty()
            };
            assert(parameter_names(path@, from as int) =~= here + rest);
            assert(names + (here + rest) =~= (names + here) + rest);
        }
        if end < chars.len() {
            from = end + 1;
        } else {
            more = false;
        }
    }
    if pattern.unicode_len() == 1 {
        assert(pieces(path@, 0).len() == 0) by {
            assert(("^"@ + pieces(path@, 0)).len() == "^"@.len() + pieces(path@, 0).len());
            reveal_strlit("^");
        }
        push_char(&mut pattern, '/');
    } else {
        assert(pieces(path@, 0).len() != 0) by {
            assert(("^"@ + pieces(path@, 0)).len() == "^"@.len() + pieces(path@, 0).len());
            reveal_strlit("^");
        }
    }
    push_char(&mut pattern, '$');
    assert(pattern@ =~= route_pattern(path@));
    match refusal_of(pattern.as_str()) {
        Some(e) => Err(RegexError::Build(e)),
        None => Ok((parameters, pattern)),
    }
}

/// What a route holds.
pub struct RouteView {
    pub pattern: Seq<char>,
    pub parameters: Seq<Seq<char>>,
    pub method: Method,
}

/// A route: a method and a path, in which a segment in braces stands for a
/// parameter that takes any value.
#[derive(Debug)]
pub struct Route {
    pattern: String,
    parameters: Vec<String>,
    method: Method,
}

impl View for Route {
    type V = RouteView;

    closed spec fn view(&self) -> RouteView {
        RouteView { pattern: self.pattern@, parameters: texts(self.parameters@), method: self.method }
    }
}

/// The pairs of a parameter name and what it captured, for the parameters
/// that captured something, in the order of the names.
pub open spec fn paired(names: Seq<Seq<char>>, values: Seq<Option<Seq<char>>>) -> Seq<
    (Seq<char>, Seq<char>),
>
    decreases names.len(),
{
    if names.len() == 0 || values.len() != names.len() {
        Seq::empty()
    } else {
        let before = paired(names.drop_last(), values.drop_last());
        match values.last() {
            Some(v) => before.push((names.last(), v)),
            None => before,
        }
    }
}

/// What a list of pairs of texts holds.
pub open spec fn pairs_view(pairs: Seq<(String, String)>) -> Seq<(Seq<char>, Seq<char>)> {
    Seq::new(pairs.len(), |i: int| (pairs[i].0@, pairs[i].1@))
}

impl Route {
    /// The route of a path and a method. The path has to begin with a slash
    /// and to hold no question mark; the pattern made of it has to be
    /// accepted by the `regex` crate.
    pub fn new(path: &str, method: Method) -> (r: Result<Route, RegexError>)
        ensures
            match r {
                Ok(route) => {
                    &&& valid_route(path@)
                    &&& regex_compiles(route_pattern(path@))
                    &&& route@ == (RouteView {
                        pattern: route_pattern(path@),
                        parameters: parameter_names(path@, 0),
                        method: method,
                    })
                },
                Err(RegexError::Match) => !valid_route(path@),
                Err(RegexError::Build(_)) => valid_route(path@) && !regex_compiles(
                    route_pattern(path@),
                ),
            },
    {
        match route_to_regex(path) {
            Ok((parameters, pattern)) => Ok(Route { pattern, parameters, method }),
            Err(e) => Err(e),
        }
    }

    /// The path of a request without the slashes at its end.
    fn trimmed_path(req: &Request) -> (r: String)
        ensures
            r@ == without_trailing_slashes(req@.path),
    {
        let chars = chars_of(req.path().as_str());
        let mut end: usize = chars.len();
        assert(chars@.subrange(0, end as int) =~= chars@);
        while end > 0 && chars[end - 1] == '/'
            invariant
                end <= chars.len(),
                without_trailing_slashes(chars@) == without_trailing_slashes(
                    chars@.subrange(0, end as int),
                ),
            decreases end,
        {
            assert(chars@.subrange(0, end as int).drop_last() =~= chars@.subrange(0, end - 1));
            end = end - 1;
        }
        let mut out = String::new();
        push_chars(&mut out, &chars, 0, end);
        assert(out@ =~= chars@.subrange(0, end as int));
        out
    }

    /// Whether the route is the route of a request: the methods are the
    /// same and the path of the request, without the slashes at its end,
    /// matches the pattern.
    pub fn is_match(&self, req: &Request) -> (r: bool)
        ensures
            r == (self@.method == req@.method && regex_match(
                self@.pattern,
                without_trailing_slashes(req@.path),
            ) == Some(true)),
    {
        let path = Self::trimmed_path(req);
        let same = match (self.method, *req.method()) {
            (Method::GET, Method::GET) => true,
            (Method::POST, Method::POST) => true,
            (Method::PUT, Method::PUT) => true,
            (Method::DELETE, Method::DELETE) => true,
            _ => false,
        };
        if !same {
            return false;
        }
        match pattern_matches(self.pattern.as_str(), path.as_str()) {
            Some(matched) => matched,
            None => false,
        }
    }

    /// The parameters of a request: each parameter name with what it
    /// captured in the path of the request, without the slashes at its end.
    /// Nothing when the path does not match the pattern.
    pub fn parse_request(&self, req: &Request) -> (r: Option<Vec<(String, String)>>)
        ensures
            match r {
                Some(pairs) => {
                    let captured = regex_captures(
                        self@.pattern,
                        without_trailing_slashes(req@.path),
                        self@.parameters,
                    );
                    captured is Some && pairs_view(pairs@) == paired(
                        self@.parameters,
                        captured->Some_0,
                    )
                },
                None => regex_captures(
                    self@.pattern,
                    without_trailing_slashes(req@.path),
                    self@.parameters,
                ) is None,
            },
    {
        let path = Self::trimmed_path(req);
        let values = match pattern_captures(self.pattern.as_str(), path.as_str(), &self.parameters) {
            Some(values) => values,
            None => {
                return None;
            },
        };
        let ghost names = texts(self.parameters@);
        let ghost captured = captures_view(Some(values))->Some_0;
        let mut pairs: Vec<(String, String)> = Vec::new();
        let mut i: usize = 0;
        assert(pairs_view(pairs@) =~= paired(names.take(0), captured.take(0)));
        while i < values.len()
            invariant
                i <= values.len(),
                values.len() == self.parameters.len(),
                names == texts(self.parameters@),
                captured == captures_view(Some(values))->Some_0,
                pairs_view(pairs@) == paired(names.take(i as int), captured.take(i as int)),
            decreases values.len() - i,
        {
            let ghost before = pairs_view(pairs@);
            proof {
                assert(names.take(i + 1).drop_last() =~= names.take(i as int));
                assert(captured.take(i + 1).drop_last() =~= captured.take(i as int));
            }
            match &values[i] {
                Some(value) => {
                    pairs.push((self.parameters[i].clone(), value.clone()));
                    assert(pairs_view(pairs@) =~= before.push((names[i as int], value@)));
                },
                None => {},
            }
            i = i + 1;
        }
        assert(names.take(i as int) =~= names);
        assert(captured.take(i as int) =~= captured);
        Some(pairs)
    }

    /// Whether two routes are the same route: they have the same pattern
    /// and the same method.
    pub fn same_route(&self, other: &Route) -> (r: bool)
        ensures
            r == (self@.pattern == other@.pattern && self@.method == other@.method),
    {
        let same = match (self.method, other.method) {
            (Method::GET, Method::GET) => true,
            (Method::POST, Method::POST) => true,
            (Method::PUT, Method::PUT) => true,
            (Method::DELETE, Method::DELETE) => true,
            _ => false,
        };
        same && self.pattern == other.pattern
    }
}

impl PartialEq for Route {
    /// Two routes are equal when they have the same pattern and the same method.
    fn eq(&self, other: &Route) -> (r: bool) {
        self.same_route(other)
    }
}

impl PartialEqSpecImpl for Route {
    open spec fn obeys_eq_spec() -> bool {
        true
    }

    open spec fn eq_spec(&self, other: &Route) -> bool {
        self@.pattern == other@.pattern && self@.method == other@.method
    }
}

impl Eq for Route {

}

} // verus!
