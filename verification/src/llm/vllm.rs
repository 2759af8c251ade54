//! The address of an OpenAI-compatible (vLLM) server and the reading of its
//! streamed and listed replies.
use vstd::prelude::*;
use crate::text::{lines, lines_exec, push_all, push_str, starts_with, starts_with_str, string_from, to_chars, chars_eq, views, slice_chars};

verus! {

/// `s` without any trailing `/`.
pub open spec fn without_trailing_slashes(s: Seq<char>) -> Seq<char>
    decreases s.len(),
{
    if s.len() > 0 && s.last() == '/' {
        without_trailing_slashes(s.drop_last())
    } else {
        s
    }
}

/// Where the server is and which model to ask for.
#[derive(Debug)]
pub struct ServerEndpoint {
    endpoint: String,
    model: String,
}

impl ServerEndpoint {
    pub closed spec fn spec_endpoint(self) -> Seq<char> {
        self.endpoint@
    }

    pub closed spec fn spec_model(self) -> Seq<char> {
        self.model@
    }

    /// The endpoint is kept without trailing slashes.
    pub fn new(endpoint: &str, model: &str) -> (e: ServerEndpoint)
        ensures
            e.spec_endpoint() == without_trailing_slashes(endpoint@),
            e.spec_model() == model@,
    {
        let v = to_chars(endpoint);
        let mut n = v.len();
        assert(v@.subrange(0, n as int) =~= v@);
        while n > 0 && v[n - 1] == '/'
            invariant
                n <= v@.len(),
                without_trailing_slashes(v@.subrange(0, n as int)) == without_trailing_slashes(v@),
            decreases n,
        {
            assert(v@.subrange(0, n as int).drop_last() =~= v@.subrange(0, n - 1));
            n = n - 1;
        }
        assert(v@.subrange(0, v@.len() as int) =~= v@);
        let kept = slice_chars(&v, 0, n);
        ServerEndpoint { endpoint: string_from(&kept), model: String::from_str(model) }
    }

    pub fn endpoint(&self) -> (s: &str)
        ensures
            s@ == self.spec_endpoint(),
    {
        self.endpoint.as_str()
    }

    pub fn model(&self) -> (s: &str)
        ensures
            s@ == self.spec_model(),
    {
        self.model.as_str()
    }

    fn url(&self, route: &str) -> (s: String)
        ensures
            s@ == self.spec_endpoint() + route@,
    {
        let mut v = to_chars(self.endpoint.as_str());
        push_str(&mut v, route);
        string_from(&v)
    }

    /// The health-check address.
    pub fn health_url(&self) -> (s: String)
        ensures
            s@ == self.spec_endpoint() + "/health"@,
    {
        self.url("/health")
    }

    /// The model-listing address.
    pub fn models_url(&self) -> (s: String)
        ensures
            s@ == self.spec_endpoint() + "/v1/models"@,
    {
        self.url("/v1/models")
    }

    /// The chat-completion address.
    pub fn chat_url(&self) -> (s: String)
        ensures
            s@ == self.spec_endpoint() + "/v1/chat/completions"@,
    {
        self.url("/v1/chat/completions")
    }
}

/// The text a streamed completion chunk adds (`choices[0].delta.content`,
/// when the chunk is JSON and that field is a string).
pub uninterp spec fn delta_content_of(data: Seq<char>) -> Option<Seq<char>>;

/// Of a model listing body: `None` when it is not JSON; `Some(None)` when its
/// `data` field is not an array; else, for each entry of that array, its `id`
/// when that is a string.
pub uninterp spec fn model_id_slots_of(body: Seq<u8>) -> Option<Option<Seq<Option<Seq<char>>>>>;

/// Parses one streamed chunk with `serde_json::from_str` and reads its
/// `choices[0].delta.content` string. The result depends on the text alone;
/// what it is for given text is left to serde_json and not restated here.
#[verifier::external_body]
fn delta_content(data: &str) -> (r: Option<String>)
    ensures
        r matches Some(c) ==> delta_content_of(data@) == Some(c@),
        r is None ==> delta_content_of(data@) is None,
{
    let v: serde_json::Value = serde_json::from_str(data).ok()?;
    v["choices"][0]["delta"]["content"].as_str().map(String::from)
}

/// Parses a model listing body with `serde_json::from_slice` and reads, when
/// its `data` field is an array, the `id` string (if any) of each entry. The
/// result depends on the bytes alone; what it is for given bytes is left to
/// serde_json and not restated here.
#[verifier::external_body]
fn model_id_slots(body: &[u8]) -> (r: Option<Option<Vec<Option<String>>>>)
    ensures
        r is None ==> model_id_slots_of(body@) is None,
        r matches Some(None) ==> model_id_slots_of(body@) == Some(None::<Seq<Option<Seq<char>>>>),
        r matches Some(Some(v)) ==> model_id_slots_of(body@) matches Some(Some(s)) && s.len()
            == v@.len() && forall|i: int|
            0 <= i < v@.len() ==> #[trigger] s[i] == match v@[i] {
                Some(x) => Some(x@),
                None => None,
            },
{
    let v: serde_json::Value = serde_json::from_slice(body).ok()?;
    Some(v["data"].as_array().map(|a| a.iter().map(|m| m["id"].as_str().map(String::from)).collect()))
}

/// The ids present among the slots, in order.
pub open spec fn present_ids(slots: Seq<Option<Seq<char>>>) -> Seq<Seq<char>>
    decreases slots.len(),
{
    if slots.len() == 0 {
        seq![]
    } else {
        present_ids(slots.drop_last()) + match slots.last() {
            Some(x) => seq![x],
            None => seq![],
        }
    }
}

/// The ids a listing's `data` holds: those present, in order; none when
/// `data` is not an array.
pub open spec fn listed_ids(data: Option<Seq<Option<Seq<char>>>>) -> Seq<Seq<char>> {
    match data {
        Some(slots) => present_ids(slots),
        None => seq![],
    }
}

/// The model ids of a listing body, in order; `None` when it is not JSON, and
/// no ids when its `data` field is not an array.
pub fn model_ids(body: &[u8]) -> (r: Option<Vec<String>>)
    ensures
        r is None <==> model_id_slots_of(body@) is None,
        model_id_slots_of(body@) == Some(None::<Seq<Option<Seq<char>>>>) ==> (r matches Some(v)
            && v@.len() == 0),
        r matches Some(v) ==> v@.map_values(|s: String| s@) == listed_ids(
            model_id_slots_of(body@)->0,
        ),
{
    let slots = match model_id_slots(body)? {
        Some(slots) => slots,
        None => {
            let none: Vec<String> = Vec::new();
            assert(none@.map_values(|s: String| s@) =~= Seq::<Seq<char>>::empty());
            return Some(none);
        },
    };
    let ghost sv = model_id_slots_of(body@)->0->0;
    let mut ids: Vec<String> = Vec::new();
    let mut k: usize = 0;
    while k < slots.len()
        invariant
            k <= slots@.len(),
            sv.len() == slots@.len(),
            forall|i: int|
                0 <= i < slots@.len() ==> #[trigger] sv[i] == match slots@[i] {
                    Some(x) => Some(x@),
                    None => None,
                },
            ids@.map_values(|s: String| s@) == present_ids(sv.take(k as int)),
        decreases slots@.len() - k,
    {
        let ghost before = ids@.map_values(|s: String| s@);
        assert(sv.take(k + 1).drop_last() =~= sv.take(k as int));
        match &slots[k] {
            Some(id) => {
                ids.push(id.clone());
                assert(ids@.map_values(|s: String| s@) =~= before + seq![id@]);
            },
            None => {
                assert(ids@.map_values(|s: String| s@) =~= before + Seq::<Seq<char>>::empty());
            },
        }
        k = k + 1;
    }
    assert(sv.take(k as int) =~= sv);
    Some(ids)
}

/// The pieces a streamed reply delivers, reading its lines from index `i`:
/// each `data: ` line up to `data: [DONE]` contributes the text its chunk adds.
pub open spec fn stream_pieces(ls: Seq<Seq<char>>, i: int) -> Seq<Seq<char>>
    decreases ls.len() - i,
{
    if i < 0 || i >= ls.len() {
        seq![]
    } else if starts_with(ls[i], "data: "@) {
        let data = ls[i].subrange(6, ls[i].len() as int);
        if data == "[DONE]"@ {
            seq![]
        } else {
            match delta_content_of(data) {
                Some(c) => seq![c] + stream_pieces(ls, i + 1),
                None => stream_pieces(ls, i + 1),
            }
        }
    } else {
        stream_pieces(ls, i + 1)
    }
}

/// All pieces one after another.
pub open spec fn concat_all(ps: Seq<Seq<char>>) -> Seq<char>
    decreases ps.len(),
{
    if ps.len() == 0 {
        seq![]
    } else {
        concat_all(ps.drop_last()) + ps.last()
    }
}

/// What a streamed reply delivers: each piece in order, and all of them together.
#[derive(Debug)]
pub struct StreamedReply {
    pub chunks: Vec<String>,
    pub full_content: String,
}

/// Reads a whole streamed (server-sent events) reply.
pub fn read_stream(text: &str) -> (r: StreamedReply)
    ensures
        r.chunks@.map_values(|s: String| s@) == stream_pieces(lines(text@), 0),
        r.full_content@ == concat_all(stream_pieces(lines(text@), 0)),
{
    let ls = lines_exec(&to_chars(text));
    let ghost lv = views(ls@);
    let done = to_chars("[DONE]");
    let mut chunks: Vec<String> = Vec::new();
    let mut full: Vec<char> = Vec::new();
    let mut k: usize = 0;
    proof {
        reveal_strlit("data: ");
        assert("data: "@.len() == 6);
    }
    while k < ls.len()
        invariant
            k <= ls@.len(),
            lv == views(ls@),
            lv == lines(text@),
            done@ == "[DONE]"@,
            "data: "@.len() == 6,
            chunks@.map_values(|s: String| s@) + stream_pieces(lv, k as int) == stream_pieces(lv, 0),
            full@ + concat_all(stream_pieces(lv, k as int)) == concat_all(stream_pieces(lv, 0)),
        ensures
            chunks@.map_values(|s: String| s@) == stream_pieces(lv, 0),
            full@ == concat_all(stream_pieces(lv, 0)),
        decreases ls@.len() - k,
    {
        let line = &ls[k];
        assert(lv[k as int] == line@);
        let ghost before = chunks@.map_values(|s: String| s@);
        if starts_with_str(line, "data: ") {
            let data = slice_chars(line, 6, line.len());
            if chars_eq(&data, &done) {
                assert(stream_pieces(lv, k as int) == Seq::<Seq<char>>::empty());
                assert(chunks@.map_values(|s: String| s@) =~= before + stream_pieces(lv, k as int));
                assert(concat_all(Seq::<Seq<char>>::empty()) =~= Seq::<char>::empty());
                assert(full@ =~= full@ + concat_all(stream_pieces(lv, k as int)));
                break;
            }
            let text_data = string_from(&data);
            match delta_content(text_data.as_str()) {
                Some(c) => {
                    let ghost rest = stream_pieces(lv, k + 1);
                    let ghost f0 = full@;
                    push_str(&mut full, c.as_str());
                    chunks.push(c);
                    proof {
                        lemma_concat_all_prepend(c@, rest);
                        assert(chunks@.map_values(|s: String| s@) =~= before.push(c@));
                        assert(before + stream_pieces(lv, k as int) =~= before.push(c@) + rest);
                    }
                },
                None => {},
            }
        }
        k = k + 1;
    }
    StreamedReply { chunks, full_content: string_from(&full) }
}

proof fn lemma_concat_all_prepend(c: Seq<char>, rest: Seq<Seq<char>>)
    ensures
        concat_all(seq![c] + rest) == c + concat_all(rest),
    decreases rest.len(),
{
    if rest.len() == 0 {
        assert(seq![c] + rest =~= seq![c]);
        assert(seq![c].drop_last() =~= Seq::<Seq<char>>::empty());
        assert(concat_all(Seq::<Seq<char>>::empty()) == Seq::<char>::empty());
        assert(concat_all(seq![c]) == concat_all(seq![c].drop_last()) + seq![c].last());
        assert(Seq::<char>::empty() + c =~= c);
        assert(c =~= c + Seq::<char>::empty());
    } else {
        lemma_concat_all_prepend(c, rest.drop_last());
        assert((seq![c] + rest).drop_last() =~= seq![c] + rest.drop_last());
        assert((seq![c] + rest).last() == rest.last());
        assert(c + concat_all(rest.drop_last()) + rest.last() =~= c + (concat_all(rest.drop_last())
            + rest.last()));
    }
}

} // verus!
