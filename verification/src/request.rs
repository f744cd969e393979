//! Outbound request framing.
//!
//! A dispatcher call carries a free-text prompt, an optional session id
//! to continue a prior conversation, and an optional model selection.
//! The descriptor is rendered as the JSON object
//! `{"prompt": ..., "sessionId": ..., "model": {"providerID": ...,
//! "modelID": ...}}`, the optional members present only when given. The
//! crate frames the JSON itself, against an exact specification of the
//! escaping.

use vstd::prelude::*;
use crate::ascii::{ascii_seq, lit, opt_bytes, push_all};

verus! {

/// Model selection: provider and model identifiers.
pub struct ModelInfo {
    /// The provider identifier.
    pub provider_id: Vec<u8>,
    /// The model identifier.
    pub model_id: Vec<u8>,
}

/// A model selection, as the specifications see it.
pub struct ModelInfoModel {
    /// The provider identifier.
    pub provider_id: Seq<u8>,
    /// The model identifier.
    pub model_id: Seq<u8>,
}

impl View for ModelInfo {
    type V = ModelInfoModel;

    open spec fn view(&self) -> ModelInfoModel {
        ModelInfoModel { provider_id: self.provider_id@, model_id: self.model_id@ }
    }
}

/// The outbound call parameters, immutable once constructed.
pub struct RequestDescriptor {
    /// The free-text prompt.
    pub prompt: Vec<u8>,
    /// The session to continue, when the call continues one.
    pub session_id: Option<Vec<u8>>,
    /// The model to use, when the caller picks one.
    pub model: Option<ModelInfo>,
}

/// The call parameters, as the specifications see them.
pub struct RequestModel {
    /// The free-text prompt.
    pub prompt: Seq<u8>,
    /// The session to continue, when the call continues one.
    pub session_id: Option<Seq<u8>>,
    /// The model to use, when the caller picks one.
    pub model: Option<ModelInfoModel>,
}

impl View for RequestDescriptor {
    type V = RequestModel;

    open spec fn view(&self) -> RequestModel {
        RequestModel {
            prompt: self.prompt@,
            session_id: opt_bytes(self.session_id),
            model: match self.model {
                Some(m) => Some(m@),
                None => None,
            },
        }
    }
}

/// A hexadecimal digit, lower case.
pub open spec fn hex_digit(n: u8) -> u8 {
    if n < 10 {
        (48 + n) as u8
    } else {
        (87 + n) as u8
    }
}

/// The JSON escape of one byte of string content: `"` and `\` get a
/// backslash, control bytes become `\u00XX`, everything else stands as
/// it is.
pub open spec fn esc_byte(b: u8) -> Seq<u8> {
    if b == 34 {
        seq![92u8, 34u8]
    } else if b == 92 {
        seq![92u8, 92u8]
    } else if b < 32 {
        seq![92u8, 117u8, 48u8, 48u8, hex_digit(b / 16), hex_digit(b % 16)]
    } else {
        seq![b]
    }
}

/// The JSON escape of string content, byte by byte.
pub open spec fn json_escaped(s: Seq<u8>) -> Seq<u8>
    decreases s.len(),
{
    if s.len() == 0 {
        Seq::empty()
    } else {
        json_escaped(s.drop_last()) + esc_byte(s.last())
    }
}

/// A JSON string: quoted, escaped content.
pub open spec fn json_string(s: Seq<u8>) -> Seq<u8> {
    seq![34u8] + json_escaped(s) + seq![34u8]
}

/// Appends the JSON escape of `s` to `dst`.
fn push_escaped(dst: &mut Vec<u8>, s: &Vec<u8>)
    ensures
        final(dst)@ == old(dst)@ + json_escaped(s@),
{
    let ghost d0 = old(dst)@;
    let mut i: usize = 0;
    while i < s.len()
        invariant
            i <= s@.len(),
            dst@ == d0 + json_escaped(s@.subrange(0, i as int)),
        decreases s@.len() - i,
    {
        let b = s[i];
        proof {
            assert(s@.subrange(0, i + 1).drop_last() =~= s@.subrange(0, i as int));
            assert(s@.subrange(0, i + 1).last() == s@[i as int]);
        }
        if b == 34 {
            dst.push(92);
            dst.push(34);
        } else if b == 92 {
            dst.push(92);
            dst.push(92);
        } else if b < 32 {
            dst.push(92);
            dst.push(117);
            dst.push(48);
            dst.push(48);
            let hi = b / 16;
            let lo = b % 16;
            dst.push(if hi < 10 { 48 + hi } else { 87 + hi });
            dst.push(if lo < 10 { 48 + lo } else { 87 + lo });
        } else {
            dst.push(b);
        }
        proof {
            assert(dst@ =~= d0 + json_escaped(s@.subrange(0, i + 1)));
        }
        i = i + 1;
    }
    proof {
        assert(s@.subrange(0, s@.len() as int) =~= s@);
    }
}

/// Appends `s` as a JSON string — quoted and escaped — to `dst`.
fn push_json_string(dst: &mut Vec<u8>, s: &Vec<u8>)
    ensures
        final(dst)@ == old(dst)@ + json_string(s@),
{
    let ghost d0 = old(dst)@;
    dst.push(34);
    push_escaped(dst, s);
    dst.push(34);
    proof {
        assert(dst@ =~= d0 + json_string(s@));
    }
}

/// The JSON request body a descriptor is rendered as.
pub open spec fn request_body_spec(r: RequestModel) -> Seq<u8> {
    seq![123u8] + json_string(ascii_seq("prompt"@)) + seq![58u8] + json_string(r.prompt) + (
    match r.session_id {
        Some(s) => seq![44u8] + json_string(ascii_seq("sessionId"@)) + seq![58u8] + json_string(s),
        None => Seq::<u8>::empty(),
    }) + (match r.model {
        Some(m) => seq![44u8] + json_string(ascii_seq("model"@)) + seq![58u8] + seq![123u8]
            + json_string(ascii_seq("providerID"@)) + seq![58u8] + json_string(m.provider_id)
            + seq![44u8] + json_string(ascii_seq("modelID"@)) + seq![58u8] + json_string(m.model_id)
            + seq![125u8],
        None => Seq::<u8>::empty(),
    }) + seq![125u8]
}

/// Renders the request body.
#[verifier::rlimit(100)]
pub fn build_request_body(r: &RequestDescriptor) -> (v: Vec<u8>)
    ensures
        v@ == request_body_spec(r@),
{
    proof {
        reveal_strlit("prompt");
        reveal_strlit("sessionId");
        reveal_strlit("model");
        reveal_strlit("providerID");
        reveal_strlit("modelID");
    }
    let mut v: Vec<u8> = Vec::new();
    v.push(123);
    let key_prompt = lit("prompt");
    push_json_string(&mut v, &key_prompt);
    v.push(58);
    push_json_string(&mut v, &r.prompt);
    match &r.session_id {
        Some(s) => {
            v.push(44);
            let key_sid = lit("sessionId");
            push_json_string(&mut v, &key_sid);
            v.push(58);
            push_json_string(&mut v, s);
        },
        None => {},
    }
    match &r.model {
        Some(m) => {
            v.push(44);
            let key_model = lit("model");
            push_json_string(&mut v, &key_model);
            v.push(58);
            v.push(123);
            let key_provider = lit("providerID");
            push_json_string(&mut v, &key_provider);
            v.push(58);
            push_json_string(&mut v, &m.provider_id);
            v.push(44);
            let key_mid = lit("modelID");
            push_json_string(&mut v, &key_mid);
            v.push(58);
            push_json_string(&mut v, &m.model_id);
            v.push(125);
        },
        None => {},
    }
    v.push(125);
    proof {
        assert(v@ =~= request_body_spec(r@));
    }
    v
}

} // verus!
