//! Scripted language-server traffic: requests fed to a server one by one,
//! the responses it wrote, and what each response is expected to hold.
use vstd::prelude::*;
use vstd::string::*;
use crate::text::{chars_of, occurs_at};

verus! {

broadcast use vstd::string::group_string_axioms;

/// A request: its method and its named parameters, each a JSON text.
#[derive(Debug)]
pub struct Message {
    pub method: &'static str,
    pub params: Vec<(&'static str, String)>,
}

impl Message {
    pub fn new(method: &'static str, params: Vec<(&'static str, String)>) -> (r: Message)
        ensures
            r.method == method,
            r.params == params,
    {
        Message { method, params }
    }
}

/// The text of a message's parameters: each `"name":value`, joined by commas.
pub open spec fn params_text(params: Seq<(&'static str, String)>) -> Seq<char>
    decreases params.len(),
{
    if params.len() == 0 {
        Seq::empty()
    } else {
        let last = seq!['"'] + params.last().0@ + seq!['"', ':'] + params.last().1@;
        if params.len() == 1 {
            last
        } else {
            params_text(params.drop_last()) + seq![','] + last
        }
    }
}

/// The JSON text of a request with id 42.
pub open spec fn request_text(m: Message) -> Seq<char> {
    "{\"method\":\""@ + m.method@ + "\",\"id\":42,\"params\":{"@ + params_text(m.params@) + "}}"@
}

/// Feeds requests to a server one by one.
#[derive(Debug)]
pub struct MockMsgReader {
    pub messages: Vec<Message>,
    pub cur: usize,
}

impl MockMsgReader {
    pub fn new(messages: Vec<Message>) -> (r: MockMsgReader)
        ensures
            r.messages == messages,
            r.cur == 0,
    {
        MockMsgReader { messages, cur: 0 }
    }

    /// The next request's text, or `None` once all were read.
    pub fn read_message(&mut self) -> (r: Option<String>)
        requires
            old(self).cur < usize::MAX,
        ensures
            final(self).messages == old(self).messages,
            final(self).cur == old(self).cur + 1,
            match r {
                Some(t) => old(self).cur < old(self).messages@.len() && t@ == request_text(
                    old(self).messages@[old(self).cur as int],
                ),
                None => old(self).cur >= old(self).messages@.len(),
            },
    {
        let index = self.cur;
        self.cur = self.cur + 1;
        if index >= self.messages.len() {
            return None;
        }
        let message = &self.messages[index];
        proof {
            reveal_strlit("{\"method\":\"");
            reveal_strlit("\",\"id\":42,\"params\":{");
            reveal_strlit("}}");
            reveal_strlit("\"");
            reveal_strlit("\":");
            reveal_strlit(",");
        }
        let mut params = String::new();
        let mut i: usize = 0;
        while i < message.params.len()
            invariant
                i <= message.params@.len(),
                params@ == params_text(message.params@.take(i as int)),
            decreases message.params@.len() - i,
        {
            let (k, v) = &message.params[i];
            let ghost before = params@;
            if i > 0 {
                params.append(",");
            }
            params.append("\"");
            params.append(k);
            params.append("\":");
            params.append(v.as_str());
            proof {
                reveal_strlit("\"");
                reveal_strlit("\":");
                reveal_strlit(",");
                let t = message.params@.take(i + 1);
                assert(t.drop_last() =~= message.params@.take(i as int));
                assert(t.last() == message.params@[i as int]);
                assert("\":"@ =~= seq!['"', ':']);
                if i > 0 {
                    assert(params@ =~= before + seq![','] + (seq!['"'] + t.last().0@ + seq!['"', ':']
                        + t.last().1@));
                } else {
                    assert(params@ =~= seq!['"'] + t.last().0@ + seq!['"', ':'] + t.last().1@);
                }
            }
            i = i + 1;
        }
        proof {
            assert(message.params@.take(message.params@.len() as int) =~= message.params@);
        }
        let mut result = String::from_str("{\"method\":\"");
        result.append(message.method);
        result.append("\",\"id\":42,\"params\":{");
        result.append(params.as_str());
        result.append("}}");
        Some(result)
    }
}

/// Feeds raw texts to a server one by one.
#[derive(Debug)]
pub struct MockRawMsgReader {
    pub messages: Vec<String>,
    pub cur: usize,
}

impl MockRawMsgReader {
    pub fn new(messages: Vec<String>) -> (r: MockRawMsgReader)
        ensures
            r.messages == messages,
            r.cur == 0,
    {
        MockRawMsgReader { messages, cur: 0 }
    }

    /// The next text, or `None` once all were read.
    pub fn read_message(&mut self) -> (r: Option<String>)
        requires
            old(self).cur < usize::MAX,
        ensures
            final(self).messages == old(self).messages,
            final(self).cur == old(self).cur + 1,
            match r {
                Some(t) => old(self).cur < old(self).messages@.len() && t@ == old(
                    self,
                ).messages@[old(self).cur as int]@,
                None => old(self).cur >= old(self).messages@.len(),
            },
    {
        let index = self.cur;
        self.cur = self.cur + 1;
        if index >= self.messages.len() {
            return None;
        }
        Some(self.messages[index].clone())
    }
}

/// The responses a server wrote, in order.
#[derive(Debug)]
pub struct RecordOutput {
    pub output: Vec<String>,
}

impl RecordOutput {
    pub fn new() -> (r: RecordOutput)
        ensures
            r.output@.len() == 0,
    {
        RecordOutput { output: Vec::new() }
    }

    /// Records a response.
    pub fn response(&mut self, output: String)
        ensures
            final(self).output@ == old(self).output@.push(output),
    {
        self.output.push(output);
    }
}

/// What a response must hold: the request id it answers, if given, and
/// pieces of text.
#[derive(Debug)]
pub struct ExpectedMessage {
    pub id: Option<u64>,
    pub contains: Vec<String>,
}

impl ExpectedMessage {
    pub fn new(id: Option<u64>) -> (r: ExpectedMessage)
        ensures
            r.id == id,
            r.contains@.len() == 0,
    {
        ExpectedMessage { id, contains: Vec::new() }
    }

    /// Adds a piece of text the response must hold.
    pub fn expect_contains(&mut self, s: &str)
        ensures
            final(self).id == old(self).id,
            final(self).contains@.len() == old(self).contains@.len() + 1,
            forall|i: int|
                0 <= i < old(self).contains@.len() ==> final(self).contains@[i] == old(
                    self,
                ).contains@[i],
            final(self).contains@[old(self).contains@.len() as int]@ == s@,
    {
        self.contains.push(String::from_str(s));
    }
}

/// Whether `needle` occurs in `hay`.
pub open spec fn contains_text(hay: Seq<char>, needle: Seq<char>) -> bool {
    exists|i: int| 0 <= i && i + needle.len() <= hay.len() && #[trigger] hay.subrange(i, i + needle.len()) == needle
}

/// Whether `needle` occurs in `hay`.
pub fn find_text(hay: &str, needle: &str) -> (r: bool)
    ensures
        r == contains_text(hay@, needle@),
{
    let h = chars_of(hay);
    let n = chars_of(needle);
    if n.len() > h.len() {
        return false;
    }
    let limit = h.len() - n.len();
    let mut i: usize = 0;
    loop
        invariant
            h@ == hay@,
            n@ == needle@,
            n@.len() <= h@.len(),
            limit == h@.len() - n@.len(),
            i <= limit,
            forall|j: int| 0 <= j < i ==> #[trigger] hay@.subrange(j, j + needle@.len()) != needle@,
        decreases limit - i,
    {
        if occurs_at(&h, &n, i) {
            return true;
        }
        if i == limit {
            return false;
        }
        i = i + 1;
    }
}

/// What a JSON text holds under a key of its top-level object.
#[derive(Debug)]
pub enum JsonMember {
    /// There is no such member, or the text is not an object.
    Missing,
    /// A string.
    Str(String),
    /// A number, with its value when that is a non-negative integer that fits in `u64`.
    Number(Option<u64>),
    /// Anything else.
    Other,
}

/// The value of a member.
pub enum JsonMemberView {
    Missing,
    Str(Seq<char>),
    Number(Option<u64>),
    Other,
}

impl View for JsonMember {
    type V = JsonMemberView;

    open spec fn view(&self) -> JsonMemberView {
        match self {
            JsonMember::Missing => JsonMemberView::Missing,
            JsonMember::Str(s) => JsonMemberView::Str(s@),
            JsonMember::Number(n) => JsonMemberView::Number(*n),
            JsonMember::Other => JsonMemberView::Other,
        }
    }
}

/// What the JSON text `text` holds under `key`; `None` when it is not JSON.
pub uninterp spec fn json_member_of(text: Seq<char>, key: Seq<char>) -> Option<JsonMemberView>;

/// The view of an optional member.
pub open spec fn member_view(m: Option<JsonMember>) -> Option<JsonMemberView> {
    match m {
        Some(x) => Some(x@),
        None => None,
    }
}

/// Parses `text` with `serde_json::from_str` into a `serde_json::Value` and
/// looks up `key` with `Value::get`, telling the member's variants apart.
/// What is claimed: the result is a function of the text and the key alone,
/// named `json_member_of`; parsing JSON is not stated here.
#[verifier::external_body]
fn json_member(text: &str, key: &str) -> (r: Option<JsonMember>)
    ensures
        member_view(r) == json_member_of(text@, key@),
{
    match serde_json::from_str::<serde_json::Value>(text) {
        Err(_) => None,
        Ok(v) => Some(
            match v.get(key) {
                None => JsonMember::Missing,
                Some(serde_json::Value::String(s)) => JsonMember::Str(s.clone()),
                Some(serde_json::Value::Number(n)) => JsonMember::Number(n.as_u64()),
                Some(_) => JsonMember::Other,
            },
        ),
    }
}

/// Why a response does not match what was expected.
#[derive(Debug)]
pub enum MessageMismatch {
    /// The number of responses differs from the number expected.
    Count { found: usize, expected: usize },
    /// A response is not JSON.
    NotJson,
    /// A response has no `jsonrpc` member.
    MissingJsonrpc,
    /// A response's `jsonrpc` member is not the string "2.0".
    BadJsonrpc,
    /// A response has no `id` member.
    MissingId,
    /// A response's `id` member is not the expected number.
    UnexpectedId { expected: u64 },
    /// A response lacks an expected piece of text.
    MissingText(String),
}

/// The outcome of checking response `found`, whose `jsonrpc` and `id`
/// members are given, against `expected`.
pub open spec fn check_outcome(
    found: Seq<char>,
    jsonrpc: Option<JsonMemberView>,
    id: Option<JsonMemberView>,
    expected: ExpectedMessage,
    r: Result<(), MessageMismatch>,
) -> bool {
    match jsonrpc {
        None => r matches Err(MessageMismatch::NotJson),
        Some(JsonMemberView::Missing) => r matches Err(MessageMismatch::MissingJsonrpc),
        Some(j) => if !(j == JsonMemberView::Str("2.0"@)) {
            r matches Err(MessageMismatch::BadJsonrpc)
        } else {
            let texts_ok = match r {
                Ok(()) => forall|k: int|
                    0 <= k < expected.contains@.len() ==> contains_text(
                        found,
                        #[trigger] expected.contains@[k]@,
                    ),
                Err(MessageMismatch::MissingText(t)) => exists|k: int|
                    0 <= k < expected.contains@.len() && t@ == expected.contains@[k]@
                        && !contains_text(found, #[trigger] expected.contains@[k]@) && forall|q: int|
                        0 <= q < k ==> contains_text(found, #[trigger] expected.contains@[q]@),
                _ => false,
            };
            match expected.id {
                Some(e) => if id == Some(JsonMemberView::Missing) {
                    r matches Err(MessageMismatch::MissingId)
                } else if id != Some(JsonMemberView::Number(Some(e))) {
                    r matches Err(MessageMismatch::UnexpectedId { expected: x }) && x == e
                } else {
                    texts_ok
                },
                None => texts_ok,
            }
        },
    }
}

/// Checks response `found`, whose `jsonrpc` and `id` members are given,
/// against `expected`: the protocol version first, then the id, then each
/// expected piece of text in order.
pub fn check_found(
    found: &str,
    jsonrpc: Option<JsonMember>,
    id: Option<JsonMember>,
    expected: &ExpectedMessage,
) -> (r: Result<(), MessageMismatch>)
    ensures
        check_outcome(found@, member_view(jsonrpc), member_view(id), *expected, r),
{
    proof {
        reveal_strlit("2.0");
    }
    match jsonrpc {
        None => {
            return Err(MessageMismatch::NotJson);
        },
        Some(JsonMember::Missing) => {
            return Err(MessageMismatch::MissingJsonrpc);
        },
        Some(JsonMember::Str(s)) => {
            let good = s.as_str().unicode_len() == 3 && s.as_str().get_char(0) == '2' && s.as_str().get_char(1)
                == '.' && s.as_str().get_char(2) == '0';
            proof {
                if good {
                    assert(s@ =~= "2.0"@);
                } else if s@ == "2.0"@ {
                    assert(s@[0] == '2' && s@[1] == '.' && s@[2] == '0');
                }
            }
            if !good {
                return Err(MessageMismatch::BadJsonrpc);
            }
        },
        Some(_) => {
            return Err(MessageMismatch::BadJsonrpc);
        },
    }
    if let Some(e) = expected.id {
        match id {
            Some(JsonMember::Missing) => {
                return Err(MessageMismatch::MissingId);
            },
            Some(JsonMember::Number(Some(n))) => {
                if n != e {
                    return Err(MessageMismatch::UnexpectedId { expected: e });
                }
            },
            _ => {
                return Err(MessageMismatch::UnexpectedId { expected: e });
            },
        }
    }
    let mut k: usize = 0;
    while k < expected.contains.len()
        invariant
            member_view(jsonrpc) == Some(JsonMemberView::Str("2.0"@)),
            expected.id matches Some(e) ==> member_view(id) == Some(JsonMemberView::Number(Some(e))),
            k <= expected.contains@.len(),
            forall|q: int| 0 <= q < k ==> contains_text(found@, #[trigger] expected.contains@[q]@),
        decreases expected.contains@.len() - k,
    {
        let c = &expected.contains[k];
        if !find_text(found, c.as_str()) {
            let t = c.clone();
            proof {
                assert(!contains_text(found@, expected.contains@[k as int]@));
                assert(t@ == expected.contains@[k as int]@);
            }
            return Err(MessageMismatch::MissingText(t));
        }
        k = k + 1;
    }
    Ok(())
}

/// Checks a response against what was expected of it.
pub fn check_message(found: &str, expected: &ExpectedMessage) -> (r: Result<(), MessageMismatch>)
    ensures
        check_outcome(
            found@,
            json_member_of(found@, "jsonrpc"@),
            json_member_of(found@, "id"@),
            *expected,
            r,
        ),
{
    let jsonrpc = json_member(found, "jsonrpc");
    let id = json_member(found, "id");
    check_found(found, jsonrpc, id, expected)
}

/// Whether response `found` passes the check against `expected`.
pub open spec fn passes(found: Seq<char>, expected: ExpectedMessage) -> bool {
    check_outcome(
        found,
        json_member_of(found, "jsonrpc"@),
        json_member_of(found, "id"@),
        expected,
        Ok(()),
    )
}

/// Checks the recorded responses against what was expected of them, one
/// for one and in order, and clears them when all match; on a mismatch
/// they are left as they were.
pub fn expect_messages(results: &mut Vec<String>, expected: &[&ExpectedMessage]) -> (r: Result<
    (),
    MessageMismatch,
>)
    ensures
        match r {
            Ok(()) => {
                &&& old(results)@.len() == expected@.len()
                &&& forall|i: int| 0 <= i < expected@.len() ==> passes(old(results)@[i]@, *expected@[i])
                &&& final(results)@.len() == 0
            },
            Err(MessageMismatch::Count { found, expected: e }) => {
                &&& old(results)@.len() != expected@.len()
                &&& found == old(results)@.len() && e == expected@.len()
                &&& final(results)@ == old(results)@
            },
            Err(m) => {
                &&& old(results)@.len() == expected@.len()
                &&& final(results)@ == old(results)@
                &&& exists|i: int|
                    0 <= i < expected@.len() && (forall|j: int| 0 <= j < i ==> passes(old(results)@[j]@, *expected@[j]))
                        && check_outcome(
                        old(results)@[i]@,
                        json_member_of(old(results)@[i]@, "jsonrpc"@),
                        json_member_of(old(results)@[i]@, "id"@),
                        *expected@[i],
                        Err(m),
                    )
            },
        },
{
    if results.len() != expected.len() {
        return Err(MessageMismatch::Count { found: results.len(), expected: expected.len() });
    }
    let mut i: usize = 0;
    while i < results.len()
        invariant
            results@.len() == expected@.len(),
            results@ == old(results)@,
            i <= results@.len(),
            forall|j: int| 0 <= j < i ==> passes(results@[j]@, *expected@[j]),
        decreases results@.len() - i,
    {
        let res = check_message(results[i].as_str(), expected[i]);
        match res {
            Ok(()) => {},
            Err(m) => {
                return Err(m);
            },
        }
        i = i + 1;
    }
    results.clear();
    Ok(())
}

} // verus!
