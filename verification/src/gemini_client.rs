//! The language-model client's verifiable half: the endpoint URLs, the JSON
//! request body both upstream calls POST, and the JSON rendering of a
//! generation response that the relay returns to its caller. The network
//! transfer itself happens outside the library, on exactly these strings.

use vstd::prelude::*;

use crate::chars::push_str_chars;
use crate::chars::string_from_chars;
use crate::json::json_string;
use crate::json::push_json_string;

verus! {

/// One text part of a request to the generative-language service.
pub struct GeminiRequestPart {
    pub text: String,
}

/// A content block of a request: its text parts.
pub struct GeminiRequestContent {
    pub parts: Vec<GeminiRequestPart>,
}

/// One text part of a generated candidate.
pub struct GeminiResponsePart {
    pub text: String,
}

/// A candidate's content: its role-tagged text parts.
pub struct GeminiResponseContent {
    pub parts: Vec<GeminiResponsePart>,
    pub role: String,
}

/// One generated candidate, with the upstream's reason generation stopped.
pub struct GeminiResponseCandidate {
    pub content: GeminiResponseContent,
    pub finish_reason: String,
}

/// The upstream response to a content-generation call.
pub struct GeminiResponse {
    pub candidates: Vec<GeminiResponseCandidate>,
}

// ---------------------------------------------------------------------------
// Request framing
// ---------------------------------------------------------------------------

/// JSON of one request part.
pub open spec fn request_part_json(p: GeminiRequestPart) -> Seq<char> {
    "{\"text\":"@ + json_string(p.text@) + "}"@
}

/// JSON of a list of request parts, comma separated.
pub open spec fn request_parts_json(ps: Seq<GeminiRequestPart>) -> Seq<char>
    decreases ps.len(),
{
    if ps.len() == 0 {
        Seq::empty()
    } else if ps.len() == 1 {
        request_part_json(ps[0])
    } else {
        request_part_json(ps[0]) + seq![','] + request_parts_json(ps.drop_first())
    }
}

/// JSON of one request content block.
pub open spec fn request_content_json(c: GeminiRequestContent) -> Seq<char> {
    "{\"parts\":["@ + request_parts_json(c.parts@) + "]}"@
}

/// JSON of a list of content blocks, comma separated.
pub open spec fn request_contents_json(cs: Seq<GeminiRequestContent>) -> Seq<char>
    decreases cs.len(),
{
    if cs.len() == 0 {
        Seq::empty()
    } else if cs.len() == 1 {
        request_content_json(cs[0])
    } else {
        request_content_json(cs[0]) + seq![','] + request_contents_json(cs.drop_first())
    }
}

/// The JSON body POSTed to both upstream endpoints.
pub open spec fn request_body_json(cs: Seq<GeminiRequestContent>) -> Seq<char> {
    "{\"contents\":["@ + request_contents_json(cs) + "]}"@
}

fn push_request_part(out: &mut Vec<char>, p: &GeminiRequestPart)
    ensures
        final(out)@ == old(out)@ + request_part_json(*p),
{
    push_str_chars(out, "{\"text\":");
    push_json_string(out, p.text.as_str());
    push_str_chars(out, "}");
    proof {
        assert(out@ =~= old(out)@ + request_part_json(*p));
    }
}

fn push_request_parts(out: &mut Vec<char>, ps: &Vec<GeminiRequestPart>, i: usize)
    requires
        i <= ps@.len(),
    ensures
        final(out)@ == old(out)@ + request_parts_json(ps@.subrange(i as int, ps@.len() as int)),
    decreases ps@.len() - i,
{
    let ghost sub = ps@.subrange(i as int, ps@.len() as int);
    if i < ps.len() {
        let p: &GeminiRequestPart = &ps[i];
        push_request_part(out, p);
        if i + 1 < ps.len() {
            out.push(',');
        }
        push_request_parts(out, ps, i + 1);
        proof {
            assert(sub[0] == ps@[i as int]);
            assert(sub.drop_first() =~= ps@.subrange(i + 1, ps@.len() as int));
            if i + 1 < ps@.len() {
                assert(out@ =~= old(out)@ + request_parts_json(sub));
            } else {
                assert(ps@.subrange(i + 1, ps@.len() as int).len() == 0);
                assert(out@ =~= old(out)@ + request_parts_json(sub));
            }
        }
    } else {
        proof {
            assert(sub.len() == 0);
            assert(out@ =~= old(out)@ + request_parts_json(sub));
        }
    }
}

fn push_request_content(out: &mut Vec<char>, c: &GeminiRequestContent)
    ensures
        final(out)@ == old(out)@ + request_content_json(*c),
{
    push_str_chars(out, "{\"parts\":[");
    push_request_parts(out, &c.parts, 0);
    push_str_chars(out, "]}");
    proof {
        assert(c.parts@.subrange(0, c.parts@.len() as int) =~= c.parts@);
        assert(out@ =~= old(out)@ + request_content_json(*c));
    }
}

fn push_request_contents(out: &mut Vec<char>, cs: &Vec<GeminiRequestContent>, i: usize)
    requires
        i <= cs@.len(),
    ensures
        final(out)@ == old(out)@ + request_contents_json(cs@.subrange(i as int, cs@.len() as int)),
    decreases cs@.len() - i,
{
    let ghost sub = cs@.subrange(i as int, cs@.len() as int);
    if i < cs.len() {
        let c: &GeminiRequestContent = &cs[i];
        push_request_content(out, c);
        if i + 1 < cs.len() {
            out.push(',');
        }
        push_request_contents(out, cs, i + 1);
        proof {
            assert(sub[0] == cs@[i as int]);
            assert(sub.drop_first() =~= cs@.subrange(i + 1, cs@.len() as int));
            if i + 1 < cs@.len() {
                assert(out@ =~= old(out)@ + request_contents_json(sub));
            } else {
                assert(cs@.subrange(i + 1, cs@.len() as int).len() == 0);
                assert(out@ =~= old(out)@ + request_contents_json(sub));
            }
        }
    } else {
        proof {
            assert(sub.len() == 0);
            assert(out@ =~= old(out)@ + request_contents_json(sub));
        }
    }
}

/// Renders the JSON request body for `contents`.
pub fn request_body(contents: &Vec<GeminiRequestContent>) -> (r: String)
    ensures
        r@ == request_body_json(contents@),
{
    let mut out: Vec<char> = Vec::new();
    push_str_chars(&mut out, "{\"contents\":[");
    push_request_contents(&mut out, contents, 0);
    push_str_chars(&mut out, "]}");
    proof {
        assert(contents@.subrange(0, contents@.len() as int) =~= contents@);
        assert(out@ =~= request_body_json(contents@));
    }
    string_from_chars(&out)
}

/// The contents both upstream calls are made with: one content block holding
/// one text part, the prompt.
pub fn prompt_contents(prompt: &str) -> (cs: Vec<GeminiRequestContent>)
    ensures
        cs@.len() == 1,
        cs@[0].parts@.len() == 1,
        cs@[0].parts@[0].text@ == prompt@,
{
    let part = GeminiRequestPart { text: prompt.to_owned() };
    let mut parts: Vec<GeminiRequestPart> = Vec::new();
    parts.push(part);
    let content = GeminiRequestContent { parts };
    let mut cs: Vec<GeminiRequestContent> = Vec::new();
    cs.push(content);
    cs
}

/// The JSON body POSTed for a single-prompt request: one content block
/// holding one text part.
pub open spec fn prompt_body_json(prompt: Seq<char>) -> Seq<char> {
    "{\"contents\":["@ + ("{\"parts\":["@ + ("{\"text\":"@ + json_string(prompt) + "}"@) + "]}"@)
        + "]}"@
}

/// Renders the JSON request body for a single prompt.
pub fn prompt_request_body(prompt: &str) -> (r: String)
    ensures
        r@ == prompt_body_json(prompt@),
{
    let cs = prompt_contents(prompt);
    let r = request_body(&cs);
    proof {
        assert(request_contents_json(cs@) == request_content_json(cs@[0]));
        assert(request_parts_json(cs@[0].parts@) == request_part_json(cs@[0].parts@[0]));
        assert(r@ =~= prompt_body_json(prompt@));
    }
    r
}

// ---------------------------------------------------------------------------
// Response framing
// ---------------------------------------------------------------------------

/// JSON of one response part.
pub open spec fn response_part_json(p: GeminiResponsePart) -> Seq<char> {
    "{\"text\":"@ + json_string(p.text@) + "}"@
}

/// JSON of a list of response parts, comma separated.
pub open spec fn response_parts_json(ps: Seq<GeminiResponsePart>) -> Seq<char>
    decreases ps.len(),
{
    if ps.len() == 0 {
        Seq::empty()
    } else if ps.len() == 1 {
        response_part_json(ps[0])
    } else {
        response_part_json(ps[0]) + seq![','] + response_parts_json(ps.drop_first())
    }
}

/// JSON of a candidate's content.
pub open spec fn response_content_json(c: GeminiResponseContent) -> Seq<char> {
    "{\"parts\":["@ + response_parts_json(c.parts@) + "],\"role\":"@ + json_string(c.role@) + "}"@
}

/// JSON of one candidate.
pub open spec fn candidate_json(cd: GeminiResponseCandidate) -> Seq<char> {
    "{\"content\":"@ + response_content_json(cd.content) + ",\"finishReason\":"@ + json_string(
        cd.finish_reason@,
    ) + "}"@
}

/// JSON of a list of candidates, comma separated.
pub open spec fn candidates_json(cds: Seq<GeminiResponseCandidate>) -> Seq<char>
    decreases cds.len(),
{
    if cds.len() == 0 {
        Seq::empty()
    } else if cds.len() == 1 {
        candidate_json(cds[0])
    } else {
        candidate_json(cds[0]) + seq![','] + candidates_json(cds.drop_first())
    }
}

/// JSON of a whole generation response, as the relay returns it.
pub open spec fn response_json(r: GeminiResponse) -> Seq<char> {
    "{\"candidates\":["@ + candidates_json(r.candidates@) + "]}"@
}

fn push_response_part(out: &mut Vec<char>, p: &GeminiResponsePart)
    ensures
        final(out)@ == old(out)@ + response_part_json(*p),
{
    push_str_chars(out, "{\"text\":");
    push_json_string(out, p.text.as_str());
    push_str_chars(out, "}");
    proof {
        assert(out@ =~= old(out)@ + response_part_json(*p));
    }
}

fn push_response_parts(out: &mut Vec<char>, ps: &Vec<GeminiResponsePart>, i: usize)
    requires
        i <= ps@.len(),
    ensures
        final(out)@ == old(out)@ + response_parts_json(ps@.subrange(i as int, ps@.len() as int)),
    decreases ps@.len() - i,
{
    let ghost sub = ps@.subrange(i as int, ps@.len() as int);
    if i < ps.len() {
        let p: &GeminiResponsePart = &ps[i];
        push_response_part(out, p);
        if i + 1 < ps.len() {
            out.push(',');
        }
        push_response_parts(out, ps, i + 1);
        proof {
            assert(sub[0] == ps@[i as int]);
            assert(sub.drop_first() =~= ps@.subrange(i + 1, ps@.len() as int));
            if i + 1 < ps@.len() {
                assert(out@ =~= old(out)@ + response_parts_json(sub));
            } else {
                assert(ps@.subrange(i + 1, ps@.len() as int).len() == 0);
                assert(out@ =~= old(out)@ + response_parts_json(sub));
            }
        }
    } else {
        proof {
            assert(sub.len() == 0);
            assert(out@ =~= old(out)@ + response_parts_json(sub));
        }
    }
}

fn push_response_content(out: &mut Vec<char>, c: &GeminiResponseContent)
    ensures
        final(out)@ == old(out)@ + response_content_json(*c),
{
    push_str_chars(out, "{\"parts\":[");
    push_response_parts(out, &c.parts, 0);
    push_str_chars(out, "],\"role\":");
    push_json_string(out, c.role.as_str());
    push_str_chars(out, "}");
    proof {
        assert(c.parts@.subrange(0, c.parts@.len() as int) =~= c.parts@);
        assert(out@ =~= old(out)@ + response_content_json(*c));
    }
}

fn push_candidate(out: &mut Vec<char>, cd: &GeminiResponseCandidate)
    ensures
        final(out)@ == old(out)@ + candidate_json(*cd),
{
    push_str_chars(out, "{\"content\":");
    push_response_content(out, &cd.content);
    push_str_chars(out, ",\"finishReason\":");
    push_json_string(out, cd.finish_reason.as_str());
    push_str_chars(out, "}");
    proof {
        assert(out@ =~= old(out)@ + candidate_json(*cd));
    }
}

fn push_candidates(out: &mut Vec<char>, cds: &Vec<GeminiResponseCandidate>, i: usize)
    requires
        i <= cds@.len(),
    ensures
        final(out)@ == old(out)@ + candidates_json(cds@.subrange(i as int, cds@.len() as int)),
    decreases cds@.len() - i,
{
    let ghost sub = cds@.subrange(i as int, cds@.len() as int);
    if i < cds.len() {
        let cd: &GeminiResponseCandidate = &cds[i];
        push_candidate(out, cd);
        if i + 1 < cds.len() {
            out.push(',');
        }
        push_candidates(out, cds, i + 1);
        proof {
            assert(sub[0] == cds@[i as int]);
            assert(sub.drop_first() =~= cds@.subrange(i + 1, cds@.len() as int));
            if i + 1 < cds@.len() {
                assert(out@ =~= old(out)@ + candidates_json(sub));
            } else {
                assert(cds@.subrange(i + 1, cds@.len() as int).len() == 0);
                assert(out@ =~= old(out)@ + candidates_json(sub));
            }
        }
    } else {
        proof {
            assert(sub.len() == 0);
            assert(out@ =~= old(out)@ + candidates_json(sub));
        }
    }
}

/// Renders a generation response as the JSON the relay's caller receives.
pub fn response_body(resp: &GeminiResponse) -> (r: String)
    ensures
        r@ == response_json(*resp),
{
    let mut out: Vec<char> = Vec::new();
    push_str_chars(&mut out, "{\"candidates\":[");
    push_candidates(&mut out, &resp.candidates, 0);
    push_str_chars(&mut out, "]}");
    proof {
        assert(resp.candidates@.subrange(0, resp.candidates@.len() as int) =~= resp.candidates@);
        assert(out@ =~= response_json(*resp));
    }
    string_from_chars(&out)
}

// ---------------------------------------------------------------------------
// The client configuration and its endpoint URLs
// ---------------------------------------------------------------------------

/// The upstream configuration: the API key, passed as a query parameter, and
/// the model identifier the endpoints are addressed under.
pub struct GeminiClient {
    pub api_key: String,
    pub model: String,
}

/// URL of the token-counting endpoint.
pub open spec fn count_tokens_url_spec(model: Seq<char>, api_key: Seq<char>) -> Seq<char> {
    "https://generativelanguage.googleapis.com/v1beta/models/"@ + model + ":countTokens?key="@
        + api_key
}

/// URL of the content-generation endpoint.
pub open spec fn generate_content_url_spec(model: Seq<char>, api_key: Seq<char>) -> Seq<char> {
    "https://generativelanguage.googleapis.com/v1beta/models/"@ + model + ":generateContent?key="@
        + api_key
}

impl GeminiClient {
    pub fn new(api_key: String, model: String) -> (r: Self)
        ensures
            r.api_key == api_key,
            r.model == model,
    {
        GeminiClient { api_key, model }
    }

    /// The URL the token-counting call POSTs to.
    pub fn count_tokens_url(&self) -> (r: String)
        ensures
            r@ == count_tokens_url_spec(self.model@, self.api_key@),
    {
        let mut s = String::new();
        s.append("https://generativelanguage.googleapis.com/v1beta/models/");
        s.append(self.model.as_str());
        s.append(":countTokens?key=");
        s.append(self.api_key.as_str());
        proof {
            assert(s@ =~= count_tokens_url_spec(self.model@, self.api_key@));
        }
        s
    }

    /// The URL the content-generation call POSTs to.
    pub fn generate_content_url(&self) -> (r: String)
        ensures
            r@ == generate_content_url_spec(self.model@, self.api_key@),
    {
        let mut s = String::new();
        s.append("https://generativelanguage.googleapis.com/v1beta/models/");
        s.append(self.model.as_str());
        s.append(":generateContent?key=");
        s.append(self.api_key.as_str());
        proof {
            assert(s@ =~= generate_content_url_spec(self.model@, self.api_key@));
        }
        s
    }
}

} // verus!
