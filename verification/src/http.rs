//! Reading the requests of the live board: paths, query strings, ids, routes,
//! and the status code that answers an error.
use vstd::prelude::*;
use crate::error::{BoardError, IdLabel};
use crate::text::{
    chars_of, contains_seq, int_text, is_digit, lemma_nat_text_digits,
    lemma_parse_int_text, nat_text, parse_i64, parse_i64_spec, seq_contains, seq_eq,
    seq_starts_with, starts_with, str_contains, string_of,
};

verus! {

/// The characters of `s` before its first `c` (all of `s` when there is none).
pub open spec fn before_first(s: Seq<char>, c: char) -> Seq<char>
    decreases s.len(),
{
    if s.len() == 0 {
        s
    } else if s[0] == c {
        Seq::empty()
    } else {
        seq![s[0]] + before_first(s.drop_first(), c)
    }
}

/// The characters of `s` after its first `c`, when it has one.
pub open spec fn after_first(s: Seq<char>, c: char) -> Option<Seq<char>>
    decreases s.len(),
{
    if s.len() == 0 {
        None
    } else if s[0] == c {
        Some(s.drop_first())
    } else {
        after_first(s.drop_first(), c)
    }
}

/// The pieces of `s` between occurrences of `c`, as `str::split` yields them.
pub open spec fn split_on(s: Seq<char>, c: char) -> Seq<Seq<char>>
    decreases s.len(),
{
    if s.len() == 0 {
        seq![Seq::empty()]
    } else {
        let p = split_on(s.drop_last(), c);
        if s.last() == c {
            p.push(Seq::empty())
        } else {
            p.update(p.len() - 1, p.last().push(s.last()))
        }
    }
}

/// The value of the first `key=value` pair named `key` among `pairs`; a piece
/// without `=` is no pair.
pub open spec fn find_pair(pairs: Seq<Seq<char>>, key: Seq<char>) -> Option<Seq<char>>
    decreases pairs.len(),
{
    if pairs.len() == 0 {
        None
    } else {
        match after_first(pairs[0], '=') {
            Some(v) if before_first(pairs[0], '=') == key => Some(v),
            _ => find_pair(pairs.drop_first(), key),
        }
    }
}

/// The path of a request URL: what comes before the query string.
pub open spec fn request_path_spec(url: Seq<char>) -> Seq<char> {
    before_first(url, '?')
}

/// The text of query parameter `key` in `url`, if the query names it.
pub open spec fn query_value(url: Seq<char>, key: Seq<char>) -> Option<Seq<char>> {
    match after_first(url, '?') {
        Some(q) => find_pair(split_on(q, '&'), key),
        None => None,
    }
}

/// The integer value of query parameter `key` in `url`, if it has one.
pub open spec fn query_id(url: Seq<char>, key: Seq<char>) -> Option<i64> {
    match query_value(url, key) {
        Some(v) => parse_i64_spec(v),
        None => None,
    }
}

/// `s` with every leading repetition of `p` removed, as `str::trim_start_matches`.
pub open spec fn strip_prefixes(s: Seq<char>, p: Seq<char>) -> Seq<char>
    decreases s.len(),
{
    if p.len() > 0 && starts_with(s, p) {
        strip_prefixes(s.subrange(p.len() as int, s.len() as int), p)
    } else {
        s
    }
}

/// The id that follows `prefix` in `path`, if it is a plain integer.
pub open spec fn prefixed_id(path: Seq<char>, prefix: Seq<char>) -> Option<i64> {
    let raw = strip_prefixes(path, prefix);
    if raw.len() == 0 || contains_seq(raw, seq!['/']) {
        None
    } else {
        parse_i64_spec(raw)
    }
}

/// The status code that answers an error message: 404 when it says something
/// was not found, 400 otherwise.
pub open spec fn error_status(message: Seq<char>) -> u16 {
    if contains_seq(message, "not found"@) {
        404
    } else {
        400
    }
}

proof fn lemma_first_split(s: Seq<char>, c: char, i: int)
    requires
        0 <= i <= s.len(),
        forall|k: int| 0 <= k < i ==> s[k] != c,
        i == s.len() || s[i] == c,
    ensures
        before_first(s, c) == s.subrange(0, i),
        after_first(s, c) == (if i == s.len() {
            None
        } else {
            Some(s.subrange(i + 1, s.len() as int))
        }),
    decreases i,
{
    if i > 0 {
        lemma_first_split(s.drop_first(), c, i - 1);
        assert(seq![s[0]] + s.drop_first().subrange(0, i - 1) =~= s.subrange(0, i));
        if i < s.len() {
            assert(s.drop_first().subrange(i, s.drop_first().len() as int) =~= s.subrange(
                i + 1,
                s.len() as int,
            ));
        }
    } else {
        assert(s.subrange(0, 0) =~= Seq::<char>::empty());
        if s.len() > 0 {
            assert(s.drop_first() =~= s.subrange(1, s.len() as int));
        }
    }
}

/// The id law of request paths: the id read from a path made of a prefix
/// starting with `/` and the decimal text of an id is that id.
pub proof fn lemma_path_id_roundtrip(prefix: Seq<char>, id: i64)
    requires
        prefix.len() > 0,
        prefix[0] == '/',
    ensures
        prefixed_id(prefix + int_text(id as int), prefix) == Some(id),
{
    let t = int_text(id as int);
    let m: nat = if id < 0 {
        (-(id as int)) as nat
    } else {
        id as nat
    };
    lemma_nat_text_digits(m);
    lemma_parse_int_text(id);
    let d = nat_text(m);
    assert(t.len() >= 1);
    assert forall|k: int| 0 <= k < t.len() implies t[k] != '/' by {
        if id < 0 {
            assert(t == seq!['-'] + d);
            if k > 0 {
                assert(t[k] == d[k - 1]);
                assert(is_digit(d[k - 1]));
            }
        } else {
            assert(is_digit(d[k]));
        }
    };
    let s = prefix + t;
    assert(s.subrange(0, prefix.len() as int) =~= prefix);
    assert(s.subrange(prefix.len() as int, s.len() as int) =~= t);
    assert(!starts_with(t, prefix)) by {
        if prefix.len() <= t.len() {
            assert(t.subrange(0, prefix.len() as int)[0] == t[0]);
        }
    };
    assert(strip_prefixes(t, prefix) == t);
    assert(strip_prefixes(s, prefix) == t);
    assert(!contains_seq(t, seq!['/'])) by {
        if contains_seq(t, seq!['/']) {
            let i = choose|i: int|
                0 <= i && i + 1 <= t.len() && #[trigger] t.subrange(i, i + 1) == seq!['/'];
            assert(t.subrange(i, i + 1)[0] == t[i]);
        }
    };
}

/// Index of the first `c` in `s`, or `s.len()` when there is none.
fn first_index(s: &Vec<char>, c: char) -> (i: usize)
    ensures
        i <= s.len(),
        forall|k: int| 0 <= k < i ==> s@[k] != c,
        i == s.len() || s@[i as int] == c,
{
    let mut i: usize = 0;
    while i < s.len()
        invariant
            i <= s.len(),
            forall|k: int| 0 <= k < i ==> s@[k] != c,
        decreases s.len() - i,
    {
        if s[i] == c {
            return i;
        }
        i = i + 1;
    }
    i
}

/// The characters of `s` from index `a` up to `b`.
fn slice_chars(s: &Vec<char>, a: usize, b: usize) -> (r: Vec<char>)
    requires
        a <= b <= s.len(),
    ensures
        r@ == s@.subrange(a as int, b as int),
{
    let mut r: Vec<char> = Vec::new();
    let mut i: usize = a;
    while i < b
        invariant
            a <= i <= b <= s.len(),
            r@ == s@.subrange(a as int, i as int),
        decreases b - i,
    {
        r.push(s[i]);
        i = i + 1;
        assert(r@ =~= s@.subrange(a as int, i as int));
    }
    r
}

/// Splits `s` at its first `c`: the part before it, and the part after it
/// when there is one.
pub fn split_once(s: &Vec<char>, c: char) -> (r: (Vec<char>, Option<Vec<char>>))
    ensures
        r.0@ == before_first(s@, c),
        match r.1 {
            Some(v) => after_first(s@, c) == Some(v@),
            None => after_first(s@, c) is None,
        },
{
    let i = first_index(s, c);
    proof {
        lemma_first_split(s@, c, i as int);
    }
    let before = slice_chars(s, 0, i);
    if i == s.len() {
        (before, None)
    } else {
        let after = slice_chars(s, i + 1, s.len());
        (before, Some(after))
    }
}

/// The pieces of `s` between occurrences of `c`.
pub fn split_all(s: &Vec<char>, c: char) -> (r: Vec<Vec<char>>)
    ensures
        r@.map_values(|p: Vec<char>| p@) == split_on(s@, c),
{
    let mut done: Vec<Vec<char>> = Vec::new();
    let mut cur: Vec<char> = Vec::new();
    let mut i: usize = 0;
    assert(s@.subrange(0, 0) =~= Seq::<char>::empty());
    assert(done@.map_values(|p: Vec<char>| p@).push(cur@) =~= seq![Seq::<char>::empty()]);
    while i < s.len()
        invariant
            i <= s.len(),
            done@.map_values(|p: Vec<char>| p@).push(cur@) == split_on(
                s@.subrange(0, i as int),
                c,
            ),
        decreases s.len() - i,
    {
        let ghost prev = s@.subrange(0, i as int);
        let ghost next = s@.subrange(0, i + 1);
        assert(next.drop_last() =~= prev);
        assert(next.last() == s@[i as int]);
        if s[i] == c {
            let finished = cur;
            done.push(finished);
            cur = Vec::new();
            assert(done@.map_values(|p: Vec<char>| p@).push(cur@) =~= split_on(prev, c).push(
                Seq::empty(),
            ));
        } else {
            let ghost old_cur = cur@;
            cur.push(s[i]);
            assert(done@.map_values(|p: Vec<char>| p@).push(cur@) =~= split_on(prev, c).update(
                split_on(prev, c).len() - 1,
                old_cur.push(s@[i as int]),
            ));
        }
        i = i + 1;
    }
    assert(s@.subrange(0, s@.len() as int) =~= s@);
    let ghost before_last = done@.map_values(|p: Vec<char>| p@);
    done.push(cur);
    assert(done@.map_values(|p: Vec<char>| p@) =~= before_last.push(cur@));
    done
}

/// The path of a request URL: what comes before the query string.
pub fn request_path(url: &str) -> (r: String)
    ensures
        r@ == request_path_spec(url@),
{
    let cs = chars_of(url);
    let (before, _) = split_once(&cs, '?');
    string_of(&before)
}

/// The text of query parameter `key` in `url`, if the query names it.
pub fn query_param(url: &str, key: &str) -> (r: Option<Vec<char>>)
    ensures
        match r {
            Some(v) => query_value(url@, key@) == Some(v@),
            None => query_value(url@, key@) is None,
        },
{
    let cs = chars_of(url);
    let kc = chars_of(key);
    let (_, query) = split_once(&cs, '?');
    let q = match query {
        Some(q) => q,
        None => return None,
    };
    let pairs = split_all(&q, '&');
    let ghost ps = pairs@.map_values(|p: Vec<char>| p@);
    let mut i: usize = 0;
    assert(ps.subrange(0, ps.len() as int) =~= ps);
    while i < pairs.len()
        invariant
            i <= pairs.len(),
            ps == pairs@.map_values(|p: Vec<char>| p@),
            ps == split_on(q@, '&'),
            after_first(url@, '?') == Some(q@),
            kc@ == key@,
            find_pair(ps, key@) == find_pair(ps.subrange(i as int, ps.len() as int), key@),
        decreases pairs.len() - i,
    {
        let ghost rest = ps.subrange(i as int, ps.len() as int);
        assert(rest[0] == pairs@[i as int]@);
        assert(rest.drop_first() =~= ps.subrange(i + 1, ps.len() as int));
        let (k, v) = split_once(&pairs[i], '=');
        match v {
            Some(value) => {
                if seq_eq(&k, &kc) {
                    return Some(value);
                }
            },
            None => {},
        }
        i = i + 1;
    }
    assert(ps.subrange(i as int, ps.len() as int).len() == 0);
    None
}

/// The integer value of query parameter `key` in `url`, if it has one.
pub fn query_id_param(url: &str, key: &str) -> (r: Option<i64>)
    ensures
        r == query_id(url@, key@),
{
    match query_param(url, key) {
        Some(v) => {
            let text = string_of(&v);
            parse_i64(text.as_str())
        },
        None => None,
    }
}

/// The `spec_id` query parameter of `url`, if it holds an integer.
pub fn query_spec_id(url: &str) -> (r: Option<i64>)
    ensures
        r == query_id(url@, "spec_id"@),
{
    query_id_param(url, "spec_id")
}

/// The `ticket_id` query parameter of `url`, if it holds an integer.
pub fn query_ticket_id(url: &str) -> (r: Option<i64>)
    ensures
        r == query_id(url@, "ticket_id"@),
{
    query_id_param(url, "ticket_id")
}

/// The id that follows `prefix` in `path`; anything but a plain integer there
/// is an invalid id of kind `label`.
pub fn parse_prefixed_id(path: &str, prefix: &str, label: IdLabel) -> (r: Result<i64, BoardError>)
    ensures
        match prefixed_id(path@, prefix@) {
            Some(id) => r == Ok::<i64, BoardError>(id),
            None => r == Err::<i64, BoardError>(BoardError::InvalidId(label)),
        },
{
    let p = chars_of(prefix);
    let mut rest = chars_of(path);
    if p.len() > 0 {
        while seq_starts_with(&rest, &p)
            invariant
                p@ == prefix@,
                p.len() > 0,
                strip_prefixes(path@, prefix@) == strip_prefixes(rest@, prefix@),
            decreases rest.len(),
        {
            let n = rest.len();
            rest = slice_chars(&rest, p.len(), n);
        }
    }
    let slash = vec!['/'];
    if rest.len() == 0 || seq_contains(&rest, &slash) {
        assert(slash@ =~= seq!['/']);
        return Err(BoardError::InvalidId(label));
    }
    assert(slash@ =~= seq!['/']);
    let raw = string_of(&rest);
    match parse_i64(raw.as_str()) {
        Some(id) => Ok(id),
        None => Err(BoardError::InvalidId(label)),
    }
}

/// The status code that answers an error message: 404 when it says something
/// was not found, 400 otherwise.
pub fn api_error_status(message: &str) -> (r: u16)
    ensures
        r == error_status(message@),
{
    if str_contains(message, "not found") {
        404
    } else {
        400
    }
}

/// The HTTP methods the board tells apart.
#[derive(Debug, Clone, Copy, PartialEq, Eq, Structural)]
pub enum Method {
    Get,
    Post,
    Patch,
    Other,
}

/// What the board does with a request.
#[derive(Debug, Clone, Copy, PartialEq, Eq, Structural)]
pub enum Route {
    /// Create a task from the JSON body.
    PostTask,
    /// Edit the task with the id (`None`: the id is invalid).
    PatchTask(Option<i64>),
    /// Edit the ticket with the id (`None`: the id is invalid).
    PatchTicket(Option<i64>),
    /// Edit the spec with the id (`None`: the id is invalid).
    PatchSpec(Option<i64>),
    /// A method other than GET on any other path.
    MethodNotAllowed,
    /// The board's page.
    Index,
    /// A read of the JSON API.
    Api,
    /// Anything else.
    NotFound,
}

/// The route of a request with method `method` for `url`.
pub open spec fn route_spec(method: Method, url: Seq<char>) -> Route {
    let path = request_path_spec(url);
    if method == Method::Post && path == "/api/tasks"@ {
        Route::PostTask
    } else if method == Method::Patch && starts_with(path, "/api/task/"@) {
        Route::PatchTask(prefixed_id(path, "/api/task/"@))
    } else if method == Method::Patch && starts_with(path, "/api/ticket/"@) {
        Route::PatchTicket(prefixed_id(path, "/api/ticket/"@))
    } else if method == Method::Patch && starts_with(path, "/api/spec/"@) {
        Route::PatchSpec(prefixed_id(path, "/api/spec/"@))
    } else if method != Method::Get {
        Route::MethodNotAllowed
    } else if url == "/"@ || starts_with(url, "/?"@) {
        Route::Index
    } else if starts_with(url, "/api/"@) {
        Route::Api
    } else {
        Route::NotFound
    }
}

/// A text without `?` is its own request path.
proof fn lemma_path_without_query(s: Seq<char>)
    requires
        forall|i: int| 0 <= i < s.len() ==> s[i] != '?',
    ensures
        before_first(s, '?') == s,
    decreases s.len(),
{
    if s.len() > 0 {
        lemma_path_without_query(s.drop_first());
        assert(seq![s[0]] + s.drop_first() =~= s);
    }
}

/// The path of an edit: `prefix` followed by the decimal text of `id`.
proof fn lemma_edit_path(prefix: Seq<char>, id: i64)
    requires
        prefix.len() > 0,
        prefix[0] == '/',
        forall|i: int| 0 <= i < prefix.len() ==> prefix[i] != '?',
    ensures
        request_path_spec(prefix + int_text(id as int)) == prefix + int_text(id as int),
        starts_with(prefix + int_text(id as int), prefix),
        prefixed_id(prefix + int_text(id as int), prefix) == Some(id),
{
    let t = int_text(id as int);
    let m: nat = if id < 0 {
        (-(id as int)) as nat
    } else {
        id as nat
    };
    lemma_nat_text_digits(m);
    let s = prefix + t;
    assert forall|i: int| 0 <= i < s.len() implies s[i] != '?' by {
        if i >= prefix.len() {
            let k = i - prefix.len();
            if id < 0 {
                assert(t == seq!['-'] + nat_text(m));
                if k > 0 {
                    assert(t[k] == nat_text(m)[k - 1]);
                    assert(is_digit(nat_text(m)[k - 1]));
                }
            } else {
                assert(is_digit(nat_text(m)[k]));
            }
        }
    }
    lemma_path_without_query(s);
    assert(s.subrange(0, prefix.len() as int) =~= prefix);
    lemma_path_id_roundtrip(prefix, id);
}

/// The route id law: a PATCH of `/api/task/<id>`, `/api/ticket/<id>` or
/// `/api/spec/<id>` edits the task, ticket or spec with that very id.
pub proof fn lemma_patch_routes_read_their_id(id: i64)
    ensures
        route_spec(Method::Patch, "/api/task/"@ + int_text(id as int)) == Route::PatchTask(
            Some(id),
        ),
        route_spec(Method::Patch, "/api/ticket/"@ + int_text(id as int)) == Route::PatchTicket(
            Some(id),
        ),
        route_spec(Method::Patch, "/api/spec/"@ + int_text(id as int)) == Route::PatchSpec(
            Some(id),
        ),
{
    reveal_strlit("/api/task/");
    reveal_strlit("/api/ticket/");
    reveal_strlit("/api/spec/");
    let task = "/api/task/"@;
    let ticket = "/api/ticket/"@;
    let spec = "/api/spec/"@;
    lemma_edit_path(task, id);
    lemma_edit_path(ticket, id);
    lemma_edit_path(spec, id);
    let ticket_path = ticket + int_text(id as int);
    let spec_path = spec + int_text(id as int);
    assert(ticket_path.subrange(0, task.len() as int)[6] == ticket_path[6]);
    assert(!starts_with(ticket_path, task));
    assert(spec_path.subrange(0, task.len() as int)[5] == spec_path[5]);
    assert(!starts_with(spec_path, task));
    assert(!starts_with(spec_path, ticket));
}

fn id_of(r: Result<i64, BoardError>) -> (o: Option<i64>)
    ensures
        match r {
            Ok(id) => o == Some(id),
            Err(_) => o is None,
        },
{
    match r {
        Ok(id) => Some(id),
        Err(_) => None,
    }
}

fn starts(s: &str, prefix: &str) -> (r: bool)
    ensures
        r == starts_with(s@, prefix@),
{
    let a = chars_of(s);
    let b = chars_of(prefix);
    seq_starts_with(&a, &b)
}

/// The route of a request with method `method` for `url`.
pub fn route_request(method: Method, url: &str) -> (r: Route)
    ensures
        r == route_spec(method, url@),
{
    let path = request_path(url);
    let p = path.as_str();
    if method == Method::Post && crate::text::str_eq(p, "/api/tasks") {
        Route::PostTask
    } else if method == Method::Patch && starts(p, "/api/task/") {
        Route::PatchTask(id_of(parse_prefixed_id(p, "/api/task/", IdLabel::Task)))
    } else if method == Method::Patch && starts(p, "/api/ticket/") {
        Route::PatchTicket(id_of(parse_prefixed_id(p, "/api/ticket/", IdLabel::Ticket)))
    } else if method == Method::Patch && starts(p, "/api/spec/") {
        Route::PatchSpec(id_of(parse_prefixed_id(p, "/api/spec/", IdLabel::Spec)))
    } else if method != Method::Get {
        Route::MethodNotAllowed
    } else if crate::text::str_eq(url, "/") || starts(url, "/?") {
        Route::Index
    } else if starts(url, "/api/") {
        Route::Api
    } else {
        Route::NotFound
    }
}

/// A read of the board's JSON API.
#[derive(Debug, Clone, Copy, PartialEq, Eq, Structural)]
pub enum ApiRoute {
    /// All specs, newest first.
    Specs,
    /// A spec with its tickets.
    Board(i64),
    /// The tasks of a ticket.
    Tasks(i64),
    /// One task.
    Task(i64),
    /// One ticket with its tasks.
    Ticket(i64),
    /// One spec with its content.
    Spec(i64),
}

/// The API read that `url` asks for, or why it names none.
pub open spec fn api_route_spec(url: Seq<char>) -> Result<ApiRoute, BoardError> {
    let path = request_path_spec(url);
    if path == "/api/specs"@ {
        Ok(ApiRoute::Specs)
    } else if path == "/api/board"@ {
        match query_id(url, "spec_id"@) {
            Some(id) => Ok(ApiRoute::Board(id)),
            None => Err(BoardError::MissingSpecIdQuery),
        }
    } else if path == "/api/tasks"@ {
        match query_id(url, "ticket_id"@) {
            Some(id) => Ok(ApiRoute::Tasks(id)),
            None => Err(BoardError::MissingTicketIdQuery),
        }
    } else if starts_with(path, "/api/task/"@) {
        match prefixed_id(path, "/api/task/"@) {
            Some(id) => Ok(ApiRoute::Task(id)),
            None => Err(BoardError::InvalidId(IdLabel::Task)),
        }
    } else if starts_with(path, "/api/ticket/"@) {
        match prefixed_id(path, "/api/ticket/"@) {
            Some(id) => Ok(ApiRoute::Ticket(id)),
            None => Err(BoardError::InvalidId(IdLabel::Ticket)),
        }
    } else if starts_with(path, "/api/spec/"@) {
        match prefixed_id(path, "/api/spec/"@) {
            Some(id) => Ok(ApiRoute::Spec(id)),
            None => Err(BoardError::InvalidId(IdLabel::Spec)),
        }
    } else {
        Err(BoardError::RouteNotFound)
    }
}

/// The API read that `url` asks for, or why it names none.
pub fn route_json(url: &str) -> (r: Result<ApiRoute, BoardError>)
    ensures
        r == api_route_spec(url@),
{
    let path = request_path(url);
    let p = path.as_str();
    if crate::text::str_eq(p, "/api/specs") {
        Ok(ApiRoute::Specs)
    } else if crate::text::str_eq(p, "/api/board") {
        match query_spec_id(url) {
            Some(id) => Ok(ApiRoute::Board(id)),
            None => Err(BoardError::MissingSpecIdQuery),
        }
    } else if crate::text::str_eq(p, "/api/tasks") {
        match query_ticket_id(url) {
            Some(id) => Ok(ApiRoute::Tasks(id)),
            None => Err(BoardError::MissingTicketIdQuery),
        }
    } else if starts(p, "/api/task/") {
        match parse_prefixed_id(p, "/api/task/", IdLabel::Task) {
            Ok(id) => Ok(ApiRoute::Task(id)),
            Err(e) => Err(e),
        }
    } else if starts(p, "/api/ticket/") {
        match parse_prefixed_id(p, "/api/ticket/", IdLabel::Ticket) {
            Ok(id) => Ok(ApiRoute::Ticket(id)),
            Err(e) => Err(e),
        }
    } else if starts(p, "/api/spec/") {
        match parse_prefixed_id(p, "/api/spec/", IdLabel::Spec) {
            Ok(id) => Ok(ApiRoute::Spec(id)),
            Err(e) => Err(e),
        }
    } else {
        Err(BoardError::RouteNotFound)
    }
}

} // verus!
