use vstd::prelude::*;

use crate::attribute::{
    attr_list, attr_pairs, lemma_attr_list_push, lemma_attr_roundtrip, lemma_plain_key,
    lemma_quoted_wf_value, lemma_values_for_push, lemma_wf_pairs_push, pair_views, pairs_of,
    quoted_attr, quoted_value, values_for,
};
use crate::error::Error;
use crate::tags::{opt_quoted_attr, write_quoted_attr, ExtXKey};
use crate::text::{
    after_tag, chars_of, expect_tag, lemma_after_tag, lemma_strip_quoted, push_quoted_string,
    push_str, quoted, string_of, strip_quotes,
};
use crate::traits::RequiredVersion;
use crate::types::{
    key_of_pairs, key_reads_back, key_text, key_version, lemma_key_roundtrip, lemma_key_text_ends,
    opt_view, DecryptionKey, KeyView, ProtocolVersion,
};

verus! {

/// The data of an `#EXT-X-SESSION-DATA` tag, taken by its characters.
pub enum SessionDataView {
    /// The value itself.
    Value(Seq<char>),
    /// The location of a JSON file with the value.
    Uri(Seq<char>),
}

/// The data of an `#EXT-X-SESSION-DATA` tag: a value, or where to find it.
#[derive(Debug, Clone, PartialEq, Eq, PartialOrd, Ord, Hash)]
pub enum SessionData {
    /// The value itself.
    Value(String),
    /// The location of a JSON file with the value.
    Uri(String),
}

impl View for SessionData {
    type V = SessionDataView;

    open spec fn view(&self) -> SessionDataView {
        match self {
            SessionData::Value(v) => SessionDataView::Value(v@),
            SessionData::Uri(u) => SessionDataView::Uri(u@),
        }
    }
}

impl SessionData {
    /// The data itself: it owns all its text already.
    pub fn into_owned(self) -> (res: SessionData)
        ensures
            res@ == self@,
    {
        self
    }
}

/// The parts of an `#EXT-X-SESSION-DATA` tag, taken by their characters.
pub struct SessionDataTagView {
    pub data_id: Seq<char>,
    pub data: SessionDataView,
    pub language: Option<Seq<char>>,
}

/// The text of an `#EXT-X-SESSION-DATA` tag.
pub open spec fn session_data_text(d: SessionDataTagView) -> Seq<char> {
    "#EXT-X-SESSION-DATA:"@ + "DATA-ID="@ + quoted(d.data_id) + match d.data {
        SessionDataView::Value(v) => ",VALUE="@ + quoted(v),
        SessionDataView::Uri(u) => ",URI="@ + quoted(u),
    } + opt_quoted_attr("LANGUAGE"@, d.language)
}

/// The session data that the attribute list `ps` describes: a `DATA-ID` and either a
/// `VALUE` or a `URI`.
pub open spec fn session_data_of_pairs(ps: Seq<(Seq<char>, Seq<char>)>) -> Option<
    SessionDataTagView,
> {
    match quoted_attr(ps, "DATA-ID"@) {
        None => None,
        Some(id) => match (quoted_attr(ps, "VALUE"@), quoted_attr(ps, "URI"@)) {
            (Some(v), None) => Some(
                SessionDataTagView {
                    data_id: id,
                    data: SessionDataView::Value(v),
                    language: quoted_attr(ps, "LANGUAGE"@),
                },
            ),
            (None, Some(u)) => Some(
                SessionDataTagView {
                    data_id: id,
                    data: SessionDataView::Uri(u),
                    language: quoted_attr(ps, "LANGUAGE"@),
                },
            ),
            _ => None,
        },
    }
}

/// The `#EXT-X-SESSION-DATA` tag: arbitrary session data of a master playlist (RFC
/// 8216, section 4.3.4.4).
#[derive(Debug, Clone, PartialEq, Eq, PartialOrd, Ord, Hash)]
pub struct ExtXSessionData {
    data_id: String,
    data: SessionData,
    language: Option<String>,
}

impl View for ExtXSessionData {
    type V = SessionDataTagView;

    closed spec fn view(&self) -> SessionDataTagView {
        SessionDataTagView {
            data_id: self.data_id@,
            data: self.data@,
            language: opt_view(self.language),
        }
    }
}

impl ExtXSessionData {
    /// A tag with the given id and data.
    pub fn new(data_id: &str, data: SessionData) -> (res: ExtXSessionData)
        ensures
            res@ == (SessionDataTagView { data_id: data_id@, data: data@, language: None }),
    {
        ExtXSessionData { data_id: String::from_str(data_id), data, language: None }
    }

    /// A tag with the given id, data and language.
    pub fn with_language(data_id: &str, data: SessionData, language: &str) -> (res:
        ExtXSessionData)
        ensures
            res@ == (SessionDataTagView {
                data_id: data_id@,
                data: data@,
                language: Some(language@),
            }),
    {
        ExtXSessionData {
            data_id: String::from_str(data_id),
            data,
            language: Some(String::from_str(language)),
        }
    }

    /// A builder for a tag.
    pub fn builder() -> (res: ExtXSessionDataBuilder)
        ensures
            res.data_id is None && res.data is None && res.language is None,
    {
        ExtXSessionDataBuilder { data_id: None, data: None, language: None }
    }

    /// The id of the data.
    pub fn data_id(&self) -> (res: &String)
        ensures
            res@ == self@.data_id,
    {
        &self.data_id
    }

    /// The data.
    pub fn data(&self) -> (res: &SessionData)
        ensures
            res@ == self@.data,
    {
        &self.data
    }

    /// The language of the data.
    pub fn language(&self) -> (res: &Option<String>)
        ensures
            opt_view(*res) == self@.language,
    {
        &self.language
    }

    /// The tag itself: it owns all its data already.
    pub fn into_owned(self) -> (res: ExtXSessionData)
        ensures
            res@ == self@,
    {
        self
    }

    /// This tag requires protocol version 1.
    pub fn required_version(&self) -> (res: ProtocolVersion)
        ensures
            res == ProtocolVersion::V1,
    {
        ProtocolVersion::V1
    }

    /// This tag requires protocol version 1.
    pub fn requires_version(&self) -> (res: ProtocolVersion)
        ensures
            res == ProtocolVersion::V1,
    {
        ProtocolVersion::V1
    }

    /// The text of the tag.
    pub open spec fn spec_to_string(self) -> Seq<char> {
        session_data_text(self@)
    }

    /// The session data that the line `s` holds.
    pub open spec fn spec_parse(s: Seq<char>) -> Option<SessionDataTagView> {
        match after_tag(s, "#EXT-X-SESSION-DATA:"@) {
            Some(r) => session_data_of_pairs(attr_pairs(r)),
            None => None,
        }
    }

    /// Appends the text of the tag to `out`.
    pub fn write(&self, out: &mut Vec<char>)
        ensures
            final(out)@ == old(out)@ + self.spec_to_string(),
    {
        let ghost start = out@;
        push_str(out, "#EXT-X-SESSION-DATA:");
        push_str(out, "DATA-ID=");
        push_quoted_string(out, &self.data_id);
        match &self.data {
            SessionData::Value(v) => {
                push_str(out, ",VALUE=");
                push_quoted_string(out, v);
            },
            SessionData::Uri(u) => {
                push_str(out, ",URI=");
                push_quoted_string(out, u);
            },
        }
        write_quoted_attr(out, "LANGUAGE", &self.language);
        assert(out@ =~= start + session_data_text(self@));
    }

    /// The text of the tag.
    pub fn to_string(&self) -> (res: String)
        ensures
            res@ == self.spec_to_string(),
    {
        let mut out = Vec::new();
        self.write(&mut out);
        string_of(&out)
    }

    /// Parses the tag from the characters of a line.
    pub fn parse_chars(v: &Vec<char>) -> (res: Result<ExtXSessionData, Error>)
        ensures
            res is Ok <==> Self::spec_parse(v@) is Some,
            res matches Ok(t) ==> Self::spec_parse(v@) == Some(t@),
    {
        let r = expect_tag(v, "#EXT-X-SESSION-DATA:")?;
        let pairs = pairs_of(&r);
        let data_id = match quoted_value(&pairs, "DATA-ID") {
            Some(d) => d,
            None => {
                return Err(Error::MissingValue { value: String::from_str("EXT-X-DATA-ID") });
            },
        };
        let value = quoted_value(&pairs, "VALUE");
        let uri = quoted_value(&pairs, "URI");
        let data = match value {
            Some(x) => {
                if uri.is_some() {
                    return Err(Error::Custom(String::from_str("unexpected URI")));
                }
                SessionData::Value(x)
            },
            None => match uri {
                Some(u) => SessionData::Uri(u),
                None => {
                    return Err(
                        Error::Custom(
                            String::from_str(
                                "expected either `SessionData::Uri` or `SessionData::Value`",
                            ),
                        ),
                    );
                },
            },
        };
        let language = quoted_value(&pairs, "LANGUAGE");
        Ok(ExtXSessionData { data_id, data, language })
    }

    /// Parses the tag.
    pub fn try_from(input: &str) -> (res: Result<ExtXSessionData, Error>)
        ensures
            res is Ok <==> Self::spec_parse(input@) is Some,
            res matches Ok(t) ==> Self::spec_parse(input@) == Some(t@),
    {
        Self::parse_chars(&chars_of(input))
    }
}

/// Reading the text of an `#EXT-X-SESSION-DATA` tag gives the tag back, when its texts
/// hold no double quote, line feed or carriage return.
pub proof fn lemma_session_data_roundtrip(d: SessionDataTagView)
    requires
        strip_quotes(d.data_id) == d.data_id,
        d.data matches SessionDataView::Value(v) ==> strip_quotes(v) == v,
        d.data matches SessionDataView::Uri(u) ==> strip_quotes(u) == u,
        d.language matches Some(l) ==> strip_quotes(l) == l,
    ensures
        ExtXSessionData::spec_parse(session_data_text(d)) == Some(d),
{
    reveal_strlit("#EXT-X-SESSION-DATA:");
    reveal_strlit("DATA-ID=");
    reveal_strlit(",VALUE=");
    reveal_strlit(",URI=");
    reveal_strlit("DATA-ID");
    reveal_strlit("VALUE");
    reveal_strlit("URI");
    reveal_strlit("LANGUAGE");
    let ki = "DATA-ID"@;
    let kv = "VALUE"@;
    let ku = "URI"@;
    let kl = "LANGUAGE"@;
    assert(ki != kv && ki != ku && ki != kl && kv != ku && kv != kl && ku != kl) by {
        assert(ki.len() == 7 && kv.len() == 5 && ku.len() == 3 && kl.len() == 8);
        assert(ki[0] != kl[0]);
    }
    lemma_plain_key(ki);
    lemma_plain_key(kv);
    lemma_plain_key(ku);
    lemma_plain_key(kl);
    let (kd, x) = match d.data {
        SessionDataView::Value(v) => (kv, v),
        SessionDataView::Uri(u) => (ku, u),
    };
    let a = (ki, quoted(d.data_id));
    let b = (kd, quoted(x));
    let e = Seq::<(Seq<char>, Seq<char>)>::empty();
    let p1 = e.push(a).push(b);
    lemma_attr_list_push(e, a);
    lemma_attr_list_push(e.push(a), b);
    lemma_quoted_wf_value(d.data_id);
    lemma_quoted_wf_value(x);
    lemma_wf_pairs_push(e, a);
    lemma_wf_pairs_push(e.push(a), b);
    lemma_strip_quoted(d.data_id);
    lemma_strip_quoted(x);
    let body = "DATA-ID="@ + quoted(d.data_id) + match d.data {
        SessionDataView::Value(v) => ",VALUE="@ + quoted(v),
        SessionDataView::Uri(u) => ",URI="@ + quoted(u),
    } + opt_quoted_attr(kl, d.language);
    let keys = seq![ki, kv, ku, kl];
    let ps = match d.language {
        Some(l) => p1.push((kl, quoted(l))),
        None => p1,
    };
    assert forall|j: int| 0 <= j < 4 implies values_for(ps, #[trigger] keys[j]) == (if keys[j]
        == ki {
        seq![quoted(d.data_id)]
    } else if keys[j] == kd {
        seq![quoted(x)]
    } else if keys[j] == kl {
        match d.language {
            Some(l) => seq![quoted(l)],
            None => Seq::<Seq<char>>::empty(),
        }
    } else {
        Seq::<Seq<char>>::empty()
    }) by {
        lemma_values_for_push(e, a, keys[j]);
        lemma_values_for_push(e.push(a), b, keys[j]);
        if let Some(l) = d.language {
            lemma_values_for_push(p1, (kl, quoted(l)), keys[j]);
        }
    }
    assert(keys[0] == ki && keys[1] == kv && keys[2] == ku && keys[3] == kl);
    match d.language {
        Some(l) => {
            let c = (kl, quoted(l));
            lemma_attr_list_push(p1, c);
            lemma_quoted_wf_value(l);
            lemma_wf_pairs_push(p1, c);
            lemma_strip_quoted(l);
            assert(body =~= attr_list(ps));
            assert(body.last() == '"');
        },
        None => {
            assert(body =~= attr_list(ps));
            assert(body.last() == '"');
        },
    }
    lemma_attr_roundtrip(ps);
    assert(session_data_text(d) == "#EXT-X-SESSION-DATA:"@ + body);
    lemma_after_tag("#EXT-X-SESSION-DATA:"@, body);
    assert(values_for(ps, ki) == seq![quoted(d.data_id)]);
    assert(values_for(ps, kv) == (if kd == kv {
        seq![quoted(x)]
    } else {
        Seq::<Seq<char>>::empty()
    }));
    assert(values_for(ps, ku) == (if kd == ku {
        seq![quoted(x)]
    } else {
        Seq::<Seq<char>>::empty()
    }));
}

impl RequiredVersion for ExtXSessionData {
    fn required_version(&self) -> (res: ProtocolVersion)
        ensures
            res == ProtocolVersion::V1,
    {
        ProtocolVersion::V1
    }
}

/// A builder for an [`ExtXSessionData`] tag.
#[derive(Debug, Clone)]
pub struct ExtXSessionDataBuilder {
    pub data_id: Option<String>,
    pub data: Option<SessionData>,
    pub language: Option<String>,
}

impl ExtXSessionDataBuilder {
    /// Sets the id of the data.
    pub fn data_id(self, value: &str) -> (res: ExtXSessionDataBuilder)
        ensures
            res.data_id matches Some(d) && d@ == value@,
            res.data == self.data,
            res.language == self.language,
    {
        ExtXSessionDataBuilder { data_id: Some(String::from_str(value)), ..self }
    }

    /// Sets the data.
    pub fn data(self, value: SessionData) -> (res: ExtXSessionDataBuilder)
        ensures
            res.data == Some(value),
            res.data_id == self.data_id,
            res.language == self.language,
    {
        ExtXSessionDataBuilder { data: Some(value), ..self }
    }

    /// Sets the language.
    pub fn language(self, value: &str) -> (res: ExtXSessionDataBuilder)
        ensures
            res.language matches Some(l) && l@ == value@,
            res.data_id == self.data_id,
            res.data == self.data,
    {
        ExtXSessionDataBuilder { language: Some(String::from_str(value)), ..self }
    }

    /// Builds the tag: the id and the data are required.
    pub fn build(self) -> (res: Result<ExtXSessionData, String>)
        ensures
            self.data_id is None ==> (res matches Err(m) && m@ == "`data_id` must be initialized"@),
            self.data_id is Some && self.data is None ==> (res matches Err(m) && m@
                == "`data` must be initialized"@),
            self.data_id matches Some(d) ==> (self.data matches Some(x) ==> (res matches Ok(t)
                && t@ == (SessionDataTagView {
                data_id: d@,
                data: x@,
                language: opt_view(self.language),
            }))),
    {
        let data_id = match self.data_id {
            Some(d) => d,
            None => {
                return Err(String::from_str("`data_id` must be initialized"));
            },
        };
        let data = match self.data {
            Some(x) => x,
            None => {
                return Err(String::from_str("`data` must be initialized"));
            },
        };
        Ok(ExtXSessionData { data_id, data, language: self.language })
    }
}

/// The `#EXT-X-SESSION-KEY` tag: a key of the media playlists, for the client to load
/// early (RFC 8216, section 4.3.4.5).
#[derive(Debug, Clone, PartialEq, Eq, PartialOrd, Ord, Hash)]
pub struct ExtXSessionKey(pub DecryptionKey);

impl View for ExtXSessionKey {
    type V = KeyView;

    open spec fn view(&self) -> KeyView {
        self.0@
    }
}

impl ExtXSessionKey {
    /// A tag with the given key.
    pub fn new(inner: DecryptionKey) -> (res: ExtXSessionKey)
        ensures
            res@ == inner@,
    {
        ExtXSessionKey(inner)
    }

    /// The session key that an `#EXT-X-KEY` tag holds; it must hold one.
    pub fn from_key(value: ExtXKey) -> (res: Result<ExtXSessionKey, Error>)
        ensures
            match value@ {
                Some(k) => res matches Ok(t) && t@ == k,
                None => res matches Err(Error::Custom(m)) && m@ == "missing decryption key"@,
            },
    {
        match value.0 {
            Some(k) => Ok(ExtXSessionKey(k)),
            None => Err(Error::Custom(String::from_str("missing decryption key"))),
        }
    }

    /// The key.
    pub fn key(&self) -> (res: &DecryptionKey)
        ensures
            res@ == self@,
    {
        &self.0
    }

    /// The tag itself: it owns all its data already.
    pub fn into_owned(self) -> (res: ExtXSessionKey)
        ensures
            res@ == self@,
    {
        self
    }

    /// The protocol version that the key needs.
    pub fn required_version(&self) -> (res: ProtocolVersion)
        ensures
            res == key_version(self@),
    {
        self.0.required_version()
    }

    /// The protocol version that the key needs.
    pub fn requires_version(&self) -> (res: ProtocolVersion)
        ensures
            res == key_version(self@),
    {
        self.0.required_version()
    }

    /// The text of the tag.
    pub open spec fn spec_to_string(self) -> Seq<char> {
        "#EXT-X-SESSION-KEY:"@ + key_text(self@)
    }

    /// The key that the line `s` holds.
    pub open spec fn spec_parse(s: Seq<char>) -> Option<KeyView> {
        match after_tag(s, "#EXT-X-SESSION-KEY:"@) {
            Some(r) => key_of_pairs(attr_pairs(r)),
            None => None,
        }
    }

    /// Appends the text of the tag to `out`.
    pub fn write(&self, out: &mut Vec<char>)
        ensures
            final(out)@ == old(out)@ + self.spec_to_string(),
    {
        push_str(out, "#EXT-X-SESSION-KEY:");
        self.0.write(out);
    }

    /// The text of the tag.
    pub fn to_string(&self) -> (res: String)
        ensures
            res@ == self.spec_to_string(),
    {
        let mut out = Vec::new();
        self.write(&mut out);
        string_of(&out)
    }

    /// Parses the tag from the characters of a line.
    pub fn parse_chars(v: &Vec<char>) -> (res: Result<ExtXSessionKey, Error>)
        ensures
            res is Ok <==> Self::spec_parse(v@) is Some,
            res matches Ok(t) ==> Self::spec_parse(v@) == Some(t@),
    {
        let r = expect_tag(v, "#EXT-X-SESSION-KEY:")?;
        let k = DecryptionKey::parse_chars(&r)?;
        Ok(ExtXSessionKey(k))
    }

    /// Parses the tag.
    pub fn try_from(input: &str) -> (res: Result<ExtXSessionKey, Error>)
        ensures
            res is Ok <==> Self::spec_parse(input@) is Some,
            res matches Ok(t) ==> Self::spec_parse(input@) == Some(t@),
    {
        Self::parse_chars(&chars_of(input))
    }
}

/// Reading the text of an `#EXT-X-SESSION-KEY` tag gives its key back, when the key
/// reads back as itself.
pub proof fn lemma_session_key_roundtrip(k: KeyView)
    requires
        key_reads_back(k),
    ensures
        ExtXSessionKey::spec_parse("#EXT-X-SESSION-KEY:"@ + key_text(k)) == Some(k),
{
    reveal_strlit("#EXT-X-SESSION-KEY:");
    lemma_key_text_ends(k);
    lemma_after_tag("#EXT-X-SESSION-KEY:"@, key_text(k));
    lemma_key_roundtrip(k);
}

impl RequiredVersion for ExtXSessionKey {
    fn required_version(&self) -> (res: ProtocolVersion)
        ensures
            res == key_version(self@),
    {
        self.0.required_version()
    }
}

} // verus!
