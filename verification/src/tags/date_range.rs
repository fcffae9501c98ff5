use vstd::prelude::*;

use crate::attribute::{
    attr_list, attr_ok, attr_pairs, attr_val, char_views, lemma_attr_list_no_lf, lemma_attr_roundtrip, lemma_opt_push_text,
    lemma_pairs_no_lf_opt_push,
    lemma_opt_push_values, lemma_opt_push_wf, lemma_plain_key, lemma_plain_value,
    lemma_quoted_wf_value, lemma_values_for_keys, opt_push, opt_val, pair_chunk, pair_text,
    pair_views, pairs_no_lf, pairs_of, parse_attr, quoted_attr, quoted_value, values_for, values_of,
    wf_pairs, wf_value,
};
use crate::error::Error;
use crate::tags::{
    client_text, opt_quoted_attr, quoted_opt, spec_insert, write_quoted_attr, yes_opt,
    ClientAttributes,
};
use crate::text::{
    after_tag, chars_of, equals_str, expect_tag, is_ws, lemma_after_tag, lemma_decimal_text_plain,
    lemma_strip_quoted, lemma_strip_quotes_plain, no_lf, plain_opt, push_str, push_string, quoted,
    starts_with, string_of, strip_quotes,
};
use crate::traits::RequiredVersion;
use crate::types::{
    lemma_duration_roundtrip, opt_attr, opt_view, value_of_text, Duration, ProtocolVersion, Value,
    ValueView,
};

verus! {

/// The parts of an `#EXT-X-DATERANGE` tag, with its text fields taken by their
/// characters.
pub struct DateRangeView {
    pub id: Seq<char>,
    pub class: Option<Seq<char>>,
    pub start_date: Option<Seq<char>>,
    pub end_date: Option<Seq<char>>,
    pub duration: Option<Duration>,
    pub planned_duration: Option<Duration>,
    pub scte35_cmd: Option<Seq<char>>,
    pub scte35_out: Option<Seq<char>>,
    pub scte35_in: Option<Seq<char>>,
    pub end_on_next: bool,
    pub client_attributes: Seq<(Seq<char>, ValueView)>,
}

/// The key of a client attribute starts with `X-`.
pub open spec fn is_client_key(k: Seq<char>) -> bool {
    k.len() >= 2 && k[0] == 'X' && k[1] == '-'
}

/// A client attribute key holds only uppercase ASCII letters, digits and `-`.
pub open spec fn valid_client_key(k: Seq<char>) -> bool {
    forall|i: int|
        0 <= i < k.len() ==> ('A' <= #[trigger] k[i] <= 'Z') || ('0' <= k[i] <= '9') || k[i] == '-'
}

/// Every client attribute of `ps` has a valid key and a value that can be read.
pub open spec fn client_ok(ps: Seq<(Seq<char>, Seq<char>)>) -> bool {
    forall|i: int|
        0 <= i < ps.len() && is_client_key(#[trigger] ps[i].0) ==> valid_client_key(ps[i].0)
            && value_of_text(ps[i].1) is Some
}

/// The client attributes of `ps`, each with its last value, ordered by key.
pub open spec fn client_attrs_of(ps: Seq<(Seq<char>, Seq<char>)>) -> Seq<(Seq<char>, ValueView)>
    decreases ps.len(),
{
    if ps.len() == 0 {
        seq![]
    } else if is_client_key(ps.last().0) {
        spec_insert(client_attrs_of(ps.drop_last()), ps.last().0, value_of_text(ps.last().1).unwrap())
    } else {
        client_attrs_of(ps.drop_last())
    }
}

/// Every `END-ON-NEXT` value is `YES`.
pub open spec fn end_on_next_ok(ps: Seq<(Seq<char>, Seq<char>)>) -> bool {
    forall|i: int|
        0 <= i < values_for(ps, "END-ON-NEXT"@).len() ==> #[trigger] values_for(
            ps,
            "END-ON-NEXT"@,
        )[i] == "YES"@
}

/// The values of the attribute list `ps` of an `#EXT-X-DATERANGE` tag can all be read.
pub open spec fn date_range_attrs_ok(ps: Seq<(Seq<char>, Seq<char>)>) -> bool {
    &&& attr_ok::<Duration>(ps, "DURATION"@)
    &&& attr_ok::<Duration>(ps, "PLANNED-DURATION"@)
    &&& end_on_next_ok(ps)
    &&& client_ok(ps)
}

/// The date range that the attribute list `ps` describes: it needs an `ID`, and one that
/// ends on the next range needs a `CLASS` and neither a `DURATION` nor an `END-DATE`.
pub open spec fn date_range_of_pairs(ps: Seq<(Seq<char>, Seq<char>)>) -> Option<DateRangeView> {
    if date_range_attrs_ok(ps) {
        match quoted_attr(ps, "ID"@) {
            None => None,
            Some(id) => {
                let d = DateRangeView {
                    id,
                    class: quoted_attr(ps, "CLASS"@),
                    start_date: quoted_attr(ps, "START-DATE"@),
                    end_date: quoted_attr(ps, "END-DATE"@),
                    duration: attr_val::<Duration>(ps, "DURATION"@),
                    planned_duration: attr_val::<Duration>(ps, "PLANNED-DURATION"@),
                    scte35_cmd: quoted_attr(ps, "SCTE35-CMD"@),
                    scte35_out: quoted_attr(ps, "SCTE35-OUT"@),
                    scte35_in: quoted_attr(ps, "SCTE35-IN"@),
                    end_on_next: values_for(ps, "END-ON-NEXT"@).len() > 0,
                    client_attributes: client_attrs_of(ps),
                };
                if d.end_on_next && (d.class is None || d.duration is Some || d.end_date is Some) {
                    None
                } else {
                    Some(d)
                }
            },
        }
    } else {
        None
    }
}

/// The error that reading the line `s` as an `#EXT-X-DATERANGE` tag gives, where it
/// is determined by the checks of the tag itself: a line without the tag, an
/// `END-ON-NEXT` other than `YES` (when the durations can be read), and, when every
/// value can be read, a missing `ID`, then, for a range that ends on the next one, a
/// missing `CLASS`, a `DURATION` or an `END-DATE`.
pub open spec fn date_range_error(s: Seq<char>, res: Result<ExtXDateRange, Error>) -> bool {
    match after_tag(s, "#EXT-X-DATERANGE:"@) {
        None => res matches Err(Error::MissingTag { tag, input }) && tag@ == "#EXT-X-DATERANGE:"@
            && input@ == s,
        Some(r) => {
            let ps = attr_pairs(r);
            &&& attr_ok::<Duration>(ps, "DURATION"@) && attr_ok::<Duration>(ps, "PLANNED-DURATION"@)
                && !end_on_next_ok(ps) ==> (res matches Err(Error::Custom(m)) && m@
                == "`END-ON-NEXT` must be `YES`"@)
            &&& date_range_attrs_ok(ps) ==> {
                let eon = values_for(ps, "END-ON-NEXT"@).len() > 0;
                &&& quoted_attr(ps, "ID"@) is None ==> (res matches Err(Error::MissingValue { value })
                    && value@ == "ID"@)
                &&& quoted_attr(ps, "ID"@) is Some && eon && quoted_attr(ps, "CLASS"@) is None ==> (
                res matches Err(Error::MissingAttribute { attribute }) && attribute@ == "CLASS"@)
                &&& quoted_attr(ps, "ID"@) is Some && eon && quoted_attr(ps, "CLASS"@) is Some
                    && attr_val::<Duration>(ps, "DURATION"@) is Some ==> (res matches Err(
                    Error::UnexpectedAttribute { attribute },
                ) && attribute@ == "DURATION"@)
                &&& quoted_attr(ps, "ID"@) is Some && eon && quoted_attr(ps, "CLASS"@) is Some
                    && attr_val::<Duration>(ps, "DURATION"@) is None && quoted_attr(ps, "END-DATE"@)
                    is Some ==> (res matches Err(Error::UnexpectedAttribute { attribute })
                    && attribute@ == "END-DATE"@)
            }
        },
    }
}

/// The decimal text of an optional duration.
pub open spec fn opt_duration(d: Option<Duration>) -> Option<Seq<char>> {
    match d {
        Some(x) => Some(x.spec_to_string()),
        None => None,
    }
}

/// The attributes of an `#EXT-X-DATERANGE` tag up to its durations.
pub open spec fn date_range_head(d: DateRangeView) -> Seq<char> {
    "ID="@ + quoted(d.id) + opt_quoted_attr("CLASS"@, d.class) + opt_quoted_attr(
        "START-DATE"@,
        d.start_date,
    ) + opt_quoted_attr("END-DATE"@, d.end_date) + opt_attr(
        "DURATION"@,
        opt_duration(d.duration),
    ) + opt_attr("PLANNED-DURATION"@, opt_duration(d.planned_duration))
}

/// The attributes of an `#EXT-X-DATERANGE` tag after its durations.
pub open spec fn date_range_tail(d: DateRangeView) -> Seq<char> {
    opt_attr("SCTE35-CMD"@, d.scte35_cmd) + opt_attr("SCTE35-OUT"@, d.scte35_out) + opt_attr(
        "SCTE35-IN"@,
        d.scte35_in,
    ) + client_text(d.client_attributes) + if d.end_on_next {
        ",END-ON-NEXT=YES"@
    } else {
        seq![]
    }
}

/// The text of an `#EXT-X-DATERANGE` tag.
pub open spec fn date_range_text(d: DateRangeView) -> Seq<char> {
    "#EXT-X-DATERANGE:"@ + (date_range_head(d) + date_range_tail(d))
}

/// The `#EXT-X-DATERANGE` tag: a range of time with attributes (RFC 8216, section
/// 4.3.2.7). The dates are kept as text.
#[derive(Debug, Clone, PartialEq, Eq, PartialOrd, Ord, Hash)]
pub struct ExtXDateRange {
    id: String,
    class: Option<String>,
    start_date: Option<String>,
    end_date: Option<String>,
    duration: Option<Duration>,
    planned_duration: Option<Duration>,
    scte35_cmd: Option<String>,
    scte35_out: Option<String>,
    scte35_in: Option<String>,
    end_on_next: bool,
    client_attributes: ClientAttributes,
}

impl View for ExtXDateRange {
    type V = DateRangeView;

    closed spec fn view(&self) -> DateRangeView {
        DateRangeView {
            id: self.id@,
            class: opt_view(self.class),
            start_date: opt_view(self.start_date),
            end_date: opt_view(self.end_date),
            duration: self.duration,
            planned_duration: self.planned_duration,
            scte35_cmd: opt_view(self.scte35_cmd),
            scte35_out: opt_view(self.scte35_out),
            scte35_in: opt_view(self.scte35_in),
            end_on_next: self.end_on_next,
            client_attributes: self.client_attributes@,
        }
    }
}

/// Whether every character of `k` is an uppercase ASCII letter, a digit or `-`.
fn valid_key(k: &Vec<char>) -> (res: bool)
    ensures
        res == valid_client_key(k@),
{
    let mut i: usize = 0;
    while i < k.len()
        invariant
            i <= k.len(),
            forall|j: int|
                0 <= j < i ==> ('A' <= #[trigger] k@[j] <= 'Z') || ('0' <= k@[j] <= '9') || k@[j]
                    == '-',
        decreases k.len() - i,
    {
        let c = k[i];
        if !(('A' <= c && c <= 'Z') || ('0' <= c && c <= '9') || c == '-') {
            return false;
        }
        i = i + 1;
    }
    true
}

/// Reads the client attributes of the pairs, each with its last value.
fn client_attributes_of(pairs: &Vec<(Vec<char>, Vec<char>)>) -> (res: Result<
    ClientAttributes,
    Error,
>)
    ensures
        res is Ok <==> client_ok(pair_views(pairs@)),
        res matches Ok(a) ==> a@ == client_attrs_of(pair_views(pairs@)),
{
    let ghost ps = pair_views(pairs@);
    let mut attrs = ClientAttributes::new();
    let mut i: usize = 0;
    while i < pairs.len()
        invariant
            i <= pairs@.len(),
            ps == pair_views(pairs@),
            client_ok(ps.take(i as int)),
            attrs@ == client_attrs_of(ps.take(i as int)),
        decreases pairs@.len() - i,
    {
        let ghost t = ps.take(i + 1);
        assert(t.drop_last() == ps.take(i as int));
        assert(t.last() == ps[i as int]);
        let k = &pairs[i].0;
        if k.len() >= 2 && k[0] == 'X' && k[1] == '-' {
            if !valid_key(k) {
                assert(!client_ok(ps)) by {
                    assert(is_client_key(ps[i as int].0));
                }
                let mut m: Vec<char> = Vec::new();
                push_str(
                    &mut m,
                    "a client attribute can only consist of uppercase ascii characters, numbers or `-`",
                );
                return Err(Error::Custom(string_of(&m)));
            }
            let value = match Value::parse_chars(&pairs[i].1) {
                Ok(x) => x,
                Err(e) => {
                    assert(!client_ok(ps)) by {
                        assert(is_client_key(ps[i as int].0));
                    }
                    return Err(e);
                },
            };
            attrs.insert(string_of(k), value);
        }
        assert(client_ok(t)) by {
            assert forall|j: int| 0 <= j < t.len() && is_client_key(#[trigger] t[j].0) implies valid_client_key(
                t[j].0,
            ) && value_of_text(t[j].1) is Some by {
                if j < i {
                    assert(t[j] == ps.take(i as int)[j]);
                }
            }
        }
        i = i + 1;
    }
    assert(ps.take(i as int) == ps);
    Ok(attrs)
}

impl ExtXDateRange {
    /// A date range with the given id and start date, and nothing else.
    pub fn new(id: &str, start_date: &str) -> (res: ExtXDateRange)
        ensures
            res@ == (DateRangeView {
                id: id@,
                class: None,
                start_date: Some(start_date@),
                end_date: None,
                duration: None,
                planned_duration: None,
                scte35_cmd: None,
                scte35_out: None,
                scte35_in: None,
                end_on_next: false,
                client_attributes: seq![],
            }),
    {
        ExtXDateRange {
            id: String::from_str(id),
            class: None,
            start_date: Some(String::from_str(start_date)),
            end_date: None,
            duration: None,
            planned_duration: None,
            scte35_cmd: None,
            scte35_out: None,
            scte35_in: None,
            end_on_next: false,
            client_attributes: ClientAttributes::new(),
        }
    }

    /// A builder for a date range.
    pub fn builder() -> (res: ExtXDateRangeBuilder)
        ensures
            res.id is None && res.class is None && res.start_date is None && res.end_date is None
                && res.duration is None && res.planned_duration is None && res.scte35_cmd is None
                && res.scte35_out is None && res.scte35_in is None && res.end_on_next is None
                && res.client_attributes@.len() == 0,
    {
        ExtXDateRangeBuilder {
            id: None,
            class: None,
            start_date: None,
            end_date: None,
            duration: None,
            planned_duration: None,
            scte35_cmd: None,
            scte35_out: None,
            scte35_in: None,
            end_on_next: None,
            client_attributes: ClientAttributes::new(),
        }
    }

    /// The id of the range.
    pub fn id(&self) -> (res: &String)
        ensures
            res@ == self@.id,
    {
        &self.id
    }

    /// The class of the range.
    pub fn class(&self) -> (res: &Option<String>)
        ensures
            opt_view(*res) == self@.class,
    {
        &self.class
    }

    /// The start date of the range.
    pub fn start_date(&self) -> (res: &Option<String>)
        ensures
            opt_view(*res) == self@.start_date,
    {
        &self.start_date
    }

    /// The end date of the range.
    pub fn end_date(&self) -> (res: &Option<String>)
        ensures
            opt_view(*res) == self@.end_date,
    {
        &self.end_date
    }

    /// The duration of the range.
    pub fn duration(&self) -> (res: Option<Duration>)
        ensures
            res == self@.duration,
    {
        self.duration
    }

    /// The planned duration of the range.
    pub fn planned_duration(&self) -> (res: Option<Duration>)
        ensures
            res == self@.planned_duration,
    {
        self.planned_duration
    }

    /// Whether the range ends where the next range of its class starts.
    pub fn end_on_next(&self) -> (res: bool)
        ensures
            res == self@.end_on_next,
    {
        self.end_on_next
    }

    /// The client attributes of the range.
    pub fn client_attributes(&self) -> (res: &ClientAttributes)
        ensures
            res@ == self@.client_attributes,
    {
        &self.client_attributes
    }

    /// The tag itself: it owns all its data already.
    pub fn into_owned(self) -> (res: ExtXDateRange)
        ensures
            res@ == self@,
    {
        self
    }

    /// This tag requires protocol version 1.
    pub fn required_version(&self) -> (res: ProtocolVersion)
        ensures
            res == ProtocolVersion::V1,
    {
        ProtocolVersion::V1
    }

    /// The text of the tag.
    pub open spec fn spec_to_string(self) -> Seq<char> {
        date_range_text(self@)
    }

    /// The date range that the line `s` holds.
    pub open spec fn spec_parse(s: Seq<char>) -> Option<DateRangeView> {
        match after_tag(s, "#EXT-X-DATERANGE:"@) {
            Some(r) => date_range_of_pairs(attr_pairs(r)),
            None => None,
        }
    }

    /// Appends the attributes up to the durations to `out`.
    fn write_head(&self, out: &mut Vec<char>)
        ensures
            final(out)@ == old(out)@ + date_range_head(self@),
    {
        let ghost start = out@;
        let ghost d = self@;
        push_str(out, "ID=");
        crate::text::push_quoted_string(out, &self.id);
        let ghost q0 = "ID="@ + quoted(d.id);
        assert(out@ =~= start + q0);
        write_quoted_attr(out, "CLASS", &self.class);
        write_quoted_attr(out, "START-DATE", &self.start_date);
        write_quoted_attr(out, "END-DATE", &self.end_date);
        let ghost q1 = q0 + opt_quoted_attr("CLASS"@, d.class) + opt_quoted_attr(
            "START-DATE"@,
            d.start_date,
        ) + opt_quoted_attr("END-DATE"@, d.end_date);
        assert(out@ =~= start + q1);
        write_opt_duration(out, "DURATION", self.duration);
        write_opt_duration(out, "PLANNED-DURATION", self.planned_duration);
        assert(out@ =~= start + date_range_head(d));
    }

    /// Appends the attributes after the durations to `out`.
    fn write_tail(&self, out: &mut Vec<char>)
        ensures
            final(out)@ == old(out)@ + date_range_tail(self@),
    {
        let ghost start = out@;
        let ghost d = self@;
        write_raw_attr(out, "SCTE35-CMD", &self.scte35_cmd);
        write_raw_attr(out, "SCTE35-OUT", &self.scte35_out);
        write_raw_attr(out, "SCTE35-IN", &self.scte35_in);
        let ghost q0 = opt_attr("SCTE35-CMD"@, d.scte35_cmd) + opt_attr(
            "SCTE35-OUT"@,
            d.scte35_out,
        ) + opt_attr("SCTE35-IN"@, d.scte35_in);
        assert(out@ =~= start + q0);
        self.client_attributes.write(out);
        assert(out@ =~= start + (q0 + client_text(d.client_attributes)));
        if self.end_on_next {
            push_str(out, ",END-ON-NEXT=YES");
        }
        assert(out@ =~= start + date_range_tail(d));
    }

    /// Appends the text of the tag to `out`.
    pub fn write(&self, out: &mut Vec<char>)
        ensures
            final(out)@ == old(out)@ + self.spec_to_string(),
    {
        let ghost start = out@;
        push_str(out, "#EXT-X-DATERANGE:");
        self.write_head(out);
        self.write_tail(out);
        assert(out@ =~= start + date_range_text(self@));
    }

    /// The text of the tag.
    pub fn to_string(&self) -> (res: String)
        ensures
            res@ == self.spec_to_string(),
    {
        let mut out = Vec::new();
        self.write(&mut out);
        string_of(&out)
    }

    /// Parses the tag from the characters of a line.
    pub fn parse_chars(v: &Vec<char>) -> (res: Result<ExtXDateRange, Error>)
        ensures
            res is Ok <==> Self::spec_parse(v@) is Some,
            res matches Ok(t) ==> Self::spec_parse(v@) == Some(t@),
            date_range_error(v@, res),
    {
        let r = expect_tag(v, "#EXT-X-DATERANGE:")?;
        let pairs = pairs_of(&r);
        let ghost ps = pair_views(pairs@);
        let duration = parse_attr::<Duration>(&pairs, "DURATION")?;
        let planned_duration = parse_attr::<Duration>(&pairs, "PLANNED-DURATION")?;
        let eons = values_of(&pairs, "END-ON-NEXT");
        let mut i: usize = 0;
        while i < eons.len()
            invariant
                i <= eons@.len(),
                ps == attr_pairs(r@),
                after_tag(v@, "#EXT-X-DATERANGE:"@) == Some(r@),
                char_views(eons@) == values_for(ps, "END-ON-NEXT"@),
                forall|j: int| 0 <= j < i ==> #[trigger] char_views(eons@)[j] == "YES"@,
            decreases eons@.len() - i,
        {
            assert(char_views(eons@)[i as int] == eons@[i as int]@);
            if !equals_str(&eons[i], "YES") {
                assert(!end_on_next_ok(ps));
                return Err(Error::Custom(String::from_str("`END-ON-NEXT` must be `YES`")));
            }
            i = i + 1;
        }
        let end_on_next = eons.len() > 0;
        let client_attributes = client_attributes_of(&pairs)?;
        let id = match quoted_value(&pairs, "ID") {
            Some(x) => x,
            None => {
                return Err(Error::MissingValue { value: String::from_str("ID") });
            },
        };
        let class = quoted_value(&pairs, "CLASS");
        let end_date = quoted_value(&pairs, "END-DATE");
        if end_on_next && class.is_none() {
            return Err(Error::MissingAttribute { attribute: String::from_str("CLASS") });
        } else if end_on_next && duration.is_some() {
            return Err(Error::UnexpectedAttribute { attribute: String::from_str("DURATION") });
        } else if end_on_next && end_date.is_some() {
            return Err(Error::UnexpectedAttribute { attribute: String::from_str("END-DATE") });
        }
        Ok(
            ExtXDateRange {
                id,
                class,
                start_date: quoted_value(&pairs, "START-DATE"),
                end_date,
                duration,
                planned_duration,
                scte35_cmd: quoted_value(&pairs, "SCTE35-CMD"),
                scte35_out: quoted_value(&pairs, "SCTE35-OUT"),
                scte35_in: quoted_value(&pairs, "SCTE35-IN"),
                end_on_next,
                client_attributes,
            },
        )
    }

    /// Parses the tag.
    pub fn try_from(input: &str) -> (res: Result<ExtXDateRange, Error>)
        ensures
            res is Ok <==> Self::spec_parse(input@) is Some,
            res matches Ok(t) ==> Self::spec_parse(input@) == Some(t@),
            date_range_error(input@, res),
    {
        Self::parse_chars(&chars_of(input))
    }
}

impl RequiredVersion for ExtXDateRange {
    fn required_version(&self) -> (res: ProtocolVersion)
        ensures
            res == ProtocolVersion::V1,
    {
        ProtocolVersion::V1
    }
}

/// Appends `,KEY=` and the text of a duration, if there is one.
fn write_opt_duration(out: &mut Vec<char>, key: &str, value: Option<Duration>)
    ensures
        final(out)@ == old(out)@ + opt_attr(key@, opt_duration(value)),
{
    match value {
        Some(d) => {
            crate::types::push_key(out, key);
            d.write(out);
            assert(final(out)@ =~= old(out)@ + opt_attr(key@, opt_duration(value)));
        },
        None => {},
    }
}

/// Appends `,KEY=` and a text as it is, if there is one.
fn write_raw_attr(out: &mut Vec<char>, key: &str, value: &Option<String>)
    ensures
        final(out)@ == old(out)@ + opt_attr(key@, opt_view(*value)),
{
    match value {
        Some(s) => {
            crate::types::push_key(out, key);
            push_string(out, s);
            assert(final(out)@ =~= old(out)@ + opt_attr(key@, opt_view(*value)));
        },
        None => {},
    }
}

/// A builder for an [`ExtXDateRange`] tag.
#[derive(Debug, Clone)]
pub struct ExtXDateRangeBuilder {
    pub id: Option<String>,
    pub class: Option<String>,
    pub start_date: Option<String>,
    pub end_date: Option<String>,
    pub duration: Option<Duration>,
    pub planned_duration: Option<Duration>,
    pub scte35_cmd: Option<String>,
    pub scte35_out: Option<String>,
    pub scte35_in: Option<String>,
    pub end_on_next: Option<bool>,
    pub client_attributes: ClientAttributes,
}

impl ExtXDateRangeBuilder {
    /// Sets the id.
    pub fn id(self, value: &str) -> (res: ExtXDateRangeBuilder)
        ensures
            res.id matches Some(x) && x@ == value@,
    {
        ExtXDateRangeBuilder { id: Some(String::from_str(value)), ..self }
    }

    /// Sets the class.
    pub fn class(self, value: &str) -> (res: ExtXDateRangeBuilder)
        ensures
            res.class matches Some(x) && x@ == value@,
    {
        ExtXDateRangeBuilder { class: Some(String::from_str(value)), ..self }
    }

    /// Sets the start date.
    pub fn start_date(self, value: &str) -> (res: ExtXDateRangeBuilder)
        ensures
            res.start_date matches Some(x) && x@ == value@,
    {
        ExtXDateRangeBuilder { start_date: Some(String::from_str(value)), ..self }
    }

    /// Sets the end date.
    pub fn end_date(self, value: &str) -> (res: ExtXDateRangeBuilder)
        ensures
            res.end_date matches Some(x) && x@ == value@,
    {
        ExtXDateRangeBuilder { end_date: Some(String::from_str(value)), ..self }
    }

    /// Sets the duration.
    pub fn duration(self, value: Duration) -> (res: ExtXDateRangeBuilder)
        ensures
            res.duration == Some(value),
    {
        ExtXDateRangeBuilder { duration: Some(value), ..self }
    }

    /// Sets the planned duration.
    pub fn planned_duration(self, value: Duration) -> (res: ExtXDateRangeBuilder)
        ensures
            res.planned_duration == Some(value),
    {
        ExtXDateRangeBuilder { planned_duration: Some(value), ..self }
    }

    /// Sets the SCTE-35 command.
    pub fn scte35_cmd(self, value: &str) -> (res: ExtXDateRangeBuilder)
        ensures
            res.scte35_cmd matches Some(x) && x@ == value@,
    {
        ExtXDateRangeBuilder { scte35_cmd: Some(String::from_str(value)), ..self }
    }

    /// Sets the SCTE-35 splice out.
    pub fn scte35_out(self, value: &str) -> (res: ExtXDateRangeBuilder)
        ensures
            res.scte35_out matches Some(x) && x@ == value@,
    {
        ExtXDateRangeBuilder { scte35_out: Some(String::from_str(value)), ..self }
    }

    /// Sets the SCTE-35 splice in.
    pub fn scte35_in(self, value: &str) -> (res: ExtXDateRangeBuilder)
        ensures
            res.scte35_in matches Some(x) && x@ == value@,
    {
        ExtXDateRangeBuilder { scte35_in: Some(String::from_str(value)), ..self }
    }

    /// Sets whether the range ends where the next one of its class starts.
    pub fn end_on_next(self, value: bool) -> (res: ExtXDateRangeBuilder)
        ensures
            res.end_on_next == Some(value),
    {
        ExtXDateRangeBuilder { end_on_next: Some(value), ..self }
    }

    /// Sets the client attribute `key` to `value`.
    pub fn insert_client_attribute(self, key: &str, value: Value) -> (res: ExtXDateRangeBuilder)
        ensures
            res.client_attributes@ == spec_insert(self.client_attributes@, key@, value@),
            res.id == self.id,
    {
        let mut attrs = self.client_attributes;
        attrs.insert(String::from_str(key), value);
        ExtXDateRangeBuilder { client_attributes: attrs, ..self }
    }

    /// Builds the tag: the id is required.
    pub fn build(self) -> (res: Result<ExtXDateRange, String>)
        ensures
            self.id is None ==> (res matches Err(m) && m@ == "`id` must be initialized"@),
            self.id matches Some(x) ==> (res matches Ok(t) && t@ == (DateRangeView {
                id: x@,
                class: opt_view(self.class),
                start_date: opt_view(self.start_date),
                end_date: opt_view(self.end_date),
                duration: self.duration,
                planned_duration: self.planned_duration,
                scte35_cmd: opt_view(self.scte35_cmd),
                scte35_out: opt_view(self.scte35_out),
                scte35_in: opt_view(self.scte35_in),
                end_on_next: self.end_on_next == Some(true),
                client_attributes: self.client_attributes@,
            })),
    {
        let id = match self.id {
            Some(x) => x,
            None => {
                return Err(String::from_str("`id` must be initialized"));
            },
        };
        Ok(
            ExtXDateRange {
                id,
                class: self.class,
                start_date: self.start_date,
                end_date: self.end_date,
                duration: self.duration,
                planned_duration: self.planned_duration,
                scte35_cmd: self.scte35_cmd,
                scte35_out: self.scte35_out,
                scte35_in: self.scte35_in,
                end_on_next: match self.end_on_next {
                    Some(b) => b,
                    None => false,
                },
                client_attributes: self.client_attributes,
            },
        )
    }
}

/// A date range read from a line ends on the next range exactly when the attribute
/// list of the line has an `END-ON-NEXT` attribute, and every `END-ON-NEXT` of it is
/// then `YES`.
pub proof fn lemma_date_range_end_on_next(s: Seq<char>)
    requires
        ExtXDateRange::spec_parse(s) is Some,
    ensures
        after_tag(s, "#EXT-X-DATERANGE:"@) matches Some(r) && {
            let ps = attr_pairs(r);
            &&& ExtXDateRange::spec_parse(s)->0.end_on_next <==> exists|i: int|
                0 <= i < ps.len() && (#[trigger] ps[i]).0 == "END-ON-NEXT"@
            &&& forall|i: int|
                0 <= i < ps.len() && (#[trigger] ps[i]).0 == "END-ON-NEXT"@ ==> ps[i].1 == "YES"@
        },
{
    let r = after_tag(s, "#EXT-X-DATERANGE:"@)->0;
    let ps = attr_pairs(r);
    lemma_values_for_keys(ps, "END-ON-NEXT"@);
    assert forall|i: int|
        0 <= i < ps.len() && (#[trigger] ps[i]).0 == "END-ON-NEXT"@ implies ps[i].1 == "YES"@ by {
        let vs = values_for(ps, "END-ON-NEXT"@);
        let j = choose|j: int| 0 <= j < vs.len() && vs[j] == ps[i].1;
        assert(end_on_next_ok(ps));
        assert(vs[j] == "YES"@);
    }
}

/// A value written as it is that reads back as itself: not empty, neither starting
/// nor ending with white space, without double quotes, commas, line feeds or carriage
/// returns.
pub open spec fn raw_value_ok(v: Option<Seq<char>>) -> bool {
    v matches Some(x) ==> {
        &&& x.len() > 0
        &&& !is_ws(x[0])
        &&& !is_ws(x.last())
        &&& forall|i: int| 0 <= i < x.len() ==> x[i] != '"' && x[i] != ',' && x[i] != '\n' && x[i] != '\r'
    }
}

/// A date range whose text reads back as itself: one that ends on the next range has a
/// class and neither a duration nor an end date; its quoted texts hold no double quote,
/// line feed or carriage return; its SCTE-35 values read back as they are written; its
/// durations are valid; and it has no client attributes.
pub open spec fn date_range_reads_back(d: DateRangeView) -> bool {
    &&& d.end_on_next ==> d.class is Some && d.duration is None && d.end_date is None
    &&& plain_opt(Some(d.id))
    &&& plain_opt(d.class)
    &&& plain_opt(d.start_date)
    &&& plain_opt(d.end_date)
    &&& raw_value_ok(d.scte35_cmd)
    &&& raw_value_ok(d.scte35_out)
    &&& raw_value_ok(d.scte35_in)
    &&& (d.duration matches Some(x) ==> x.nanos() < 1_000_000_000)
    &&& (d.planned_duration matches Some(x) ==> x.nanos() < 1_000_000_000)
    &&& d.client_attributes.len() == 0
}

/// The attribute pairs that the text of the date range `d` lists, in order, when it has
/// no client attributes.
spec fn date_range_pairs(d: DateRangeView) -> Seq<(Seq<char>, Seq<char>)> {
    let p0 = seq![("ID"@, quoted(d.id))];
    let p1 = opt_push(p0, "CLASS"@, quoted_opt(d.class));
    let p2 = opt_push(p1, "START-DATE"@, quoted_opt(d.start_date));
    let p3 = opt_push(p2, "END-DATE"@, quoted_opt(d.end_date));
    let p4 = opt_push(p3, "DURATION"@, opt_duration(d.duration));
    let p5 = opt_push(p4, "PLANNED-DURATION"@, opt_duration(d.planned_duration));
    let p6 = opt_push(p5, "SCTE35-CMD"@, d.scte35_cmd);
    let p7 = opt_push(p6, "SCTE35-OUT"@, d.scte35_out);
    let p8 = opt_push(p7, "SCTE35-IN"@, d.scte35_in);
    opt_push(p8, "END-ON-NEXT"@, yes_opt(d.end_on_next))
}

/// The values that the pairs of the date range `d` give to the key `k`.
spec fn date_range_values(d: DateRangeView, k: Seq<char>) -> Seq<Seq<char>> {
    opt_val("ID"@ == k, Some(quoted(d.id))) + opt_val("CLASS"@ == k, quoted_opt(d.class)) + opt_val(
        "START-DATE"@ == k,
        quoted_opt(d.start_date),
    ) + opt_val("END-DATE"@ == k, quoted_opt(d.end_date)) + opt_val(
        "DURATION"@ == k,
        opt_duration(d.duration),
    ) + opt_val("PLANNED-DURATION"@ == k, opt_duration(d.planned_duration)) + opt_val(
        "SCTE35-CMD"@ == k,
        d.scte35_cmd,
    ) + opt_val("SCTE35-OUT"@ == k, d.scte35_out) + opt_val("SCTE35-IN"@ == k, d.scte35_in)
        + opt_val("END-ON-NEXT"@ == k, yes_opt(d.end_on_next))
}

/// The values of a key in the pairs of a date range.
proof fn lemma_date_range_values(d: DateRangeView, k: Seq<char>)
    ensures
        values_for(date_range_pairs(d), k) == date_range_values(d, k),
{
    let p0 = seq![("ID"@, quoted(d.id))];
    let p1 = opt_push(p0, "CLASS"@, quoted_opt(d.class));
    let p2 = opt_push(p1, "START-DATE"@, quoted_opt(d.start_date));
    let p3 = opt_push(p2, "END-DATE"@, quoted_opt(d.end_date));
    let p4 = opt_push(p3, "DURATION"@, opt_duration(d.duration));
    let p5 = opt_push(p4, "PLANNED-DURATION"@, opt_duration(d.planned_duration));
    let p6 = opt_push(p5, "SCTE35-CMD"@, d.scte35_cmd);
    let p7 = opt_push(p6, "SCTE35-OUT"@, d.scte35_out);
    let p8 = opt_push(p7, "SCTE35-IN"@, d.scte35_in);
    let e = Seq::<(Seq<char>, Seq<char>)>::empty();
    assert(p0 == opt_push(e, "ID"@, Some(quoted(d.id)))) by {
        reveal(opt_push);
        assert(e.push(("ID"@, quoted(d.id))) =~= p0);
    }
    assert(values_for(e, k) =~= Seq::<Seq<char>>::empty());
    lemma_opt_push_values(e, "ID"@, Some(quoted(d.id)), k);
    lemma_opt_push_values(p0, "CLASS"@, quoted_opt(d.class), k);
    lemma_opt_push_values(p1, "START-DATE"@, quoted_opt(d.start_date), k);
    lemma_opt_push_values(p2, "END-DATE"@, quoted_opt(d.end_date), k);
    lemma_opt_push_values(p3, "DURATION"@, opt_duration(d.duration), k);
    lemma_opt_push_values(p4, "PLANNED-DURATION"@, opt_duration(d.planned_duration), k);
    lemma_opt_push_values(p5, "SCTE35-CMD"@, d.scte35_cmd, k);
    lemma_opt_push_values(p6, "SCTE35-OUT"@, d.scte35_out, k);
    lemma_opt_push_values(p7, "SCTE35-IN"@, d.scte35_in, k);
    lemma_opt_push_values(p8, "END-ON-NEXT"@, yes_opt(d.end_on_next), k);
    assert(values_for(date_range_pairs(d), k) =~= date_range_values(d, k));
}

/// The keys of a date range: each is told apart from the others by its length and a
/// character, and none is a client key.
proof fn lemma_date_range_keys()
    ensures
        "ID"@.len() == 2,
        "CLASS"@.len() == 5,
        "START-DATE"@.len() == 10 && "START-DATE"@[1] == 'T',
        "END-DATE"@.len() == 8 && "END-DATE"@[0] == 'E',
        "DURATION"@.len() == 8 && "DURATION"@[0] == 'D',
        "PLANNED-DURATION"@.len() == 16,
        "SCTE35-CMD"@.len() == 10 && "SCTE35-CMD"@[1] == 'C' && "SCTE35-CMD"@[7] == 'C',
        "SCTE35-OUT"@.len() == 10 && "SCTE35-OUT"@[1] == 'C' && "SCTE35-OUT"@[7] == 'O',
        "SCTE35-IN"@.len() == 9,
        "END-ON-NEXT"@.len() == 11,
{
    reveal_strlit("ID");
    reveal_strlit("CLASS");
    reveal_strlit("START-DATE");
    reveal_strlit("END-DATE");
    reveal_strlit("DURATION");
    reveal_strlit("PLANNED-DURATION");
    reveal_strlit("SCTE35-CMD");
    reveal_strlit("SCTE35-OUT");
    reveal_strlit("SCTE35-IN");
    reveal_strlit("END-ON-NEXT");
}

/// The value that the pairs of a date range give to each of its keys.
proof fn lemma_date_range_values_each(d: DateRangeView)
    ensures
        values_for(date_range_pairs(d), "ID"@) == opt_val(true, Some(quoted(d.id))),
        values_for(date_range_pairs(d), "CLASS"@) == opt_val(true, quoted_opt(d.class)),
        values_for(date_range_pairs(d), "START-DATE"@) == opt_val(true, quoted_opt(d.start_date)),
        values_for(date_range_pairs(d), "END-DATE"@) == opt_val(true, quoted_opt(d.end_date)),
        values_for(date_range_pairs(d), "DURATION"@) == opt_val(true, opt_duration(d.duration)),
        values_for(date_range_pairs(d), "PLANNED-DURATION"@) == opt_val(
            true,
            opt_duration(d.planned_duration),
        ),
        values_for(date_range_pairs(d), "SCTE35-CMD"@) == opt_val(true, d.scte35_cmd),
        values_for(date_range_pairs(d), "SCTE35-OUT"@) == opt_val(true, d.scte35_out),
        values_for(date_range_pairs(d), "SCTE35-IN"@) == opt_val(true, d.scte35_in),
        values_for(date_range_pairs(d), "END-ON-NEXT"@) == opt_val(true, yes_opt(d.end_on_next)),
{
    lemma_date_range_keys();
    lemma_date_range_values(d, "ID"@);
    assert(date_range_values(d, "ID"@) =~= opt_val(true, Some(quoted(d.id))));
    lemma_date_range_values(d, "CLASS"@);
    assert(date_range_values(d, "CLASS"@) =~= opt_val(true, quoted_opt(d.class)));
    lemma_date_range_values(d, "START-DATE"@);
    assert(date_range_values(d, "START-DATE"@) =~= opt_val(true, quoted_opt(d.start_date)));
    lemma_date_range_values(d, "END-DATE"@);
    assert(date_range_values(d, "END-DATE"@) =~= opt_val(true, quoted_opt(d.end_date)));
    lemma_date_range_values(d, "DURATION"@);
    assert(date_range_values(d, "DURATION"@) =~= opt_val(true, opt_duration(d.duration)));
    lemma_date_range_values(d, "PLANNED-DURATION"@);
    assert(date_range_values(d, "PLANNED-DURATION"@) =~= opt_val(
        true,
        opt_duration(d.planned_duration),
    ));
    lemma_date_range_values(d, "SCTE35-CMD"@);
    assert(date_range_values(d, "SCTE35-CMD"@) =~= opt_val(true, d.scte35_cmd));
    lemma_date_range_values(d, "SCTE35-OUT"@);
    assert(date_range_values(d, "SCTE35-OUT"@) =~= opt_val(true, d.scte35_out));
    lemma_date_range_values(d, "SCTE35-IN"@);
    assert(date_range_values(d, "SCTE35-IN"@) =~= opt_val(true, d.scte35_in));
    lemma_date_range_values(d, "END-ON-NEXT"@);
    assert(date_range_values(d, "END-ON-NEXT"@) =~= opt_val(true, yes_opt(d.end_on_next)));
}

/// The text that an optional quoted value adds to an attribute list.
proof fn lemma_quoted_chunk(key: Seq<char>, v: Option<Seq<char>>)
    ensures
        pair_chunk(key, quoted_opt(v)) == opt_quoted_attr(key, v),
{
    reveal(pair_chunk);
    if let Some(x) = v {
        assert(seq![','] + pair_text((key, quoted(x))) =~= opt_quoted_attr(key, v));
    }
}

/// The text that an optional value written as it is adds to an attribute list.
proof fn lemma_raw_chunk(key: Seq<char>, v: Option<Seq<char>>)
    ensures
        pair_chunk(key, v) == opt_attr(key, v),
{
    reveal(pair_chunk);
    if let Some(x) = v {
        assert(seq![','] + pair_text((key, x)) =~= opt_attr(key, v));
    }
}

/// The text of a date range without client attributes is the attribute list of its
/// pairs.
proof fn lemma_date_range_text_pairs(d: DateRangeView)
    requires
        d.client_attributes.len() == 0,
    ensures
        date_range_head(d) + date_range_tail(d) == attr_list(date_range_pairs(d)),
{
    reveal_strlit("ID=");
    reveal_strlit("ID");
    reveal_strlit(",END-ON-NEXT=YES");
    reveal_strlit("END-ON-NEXT");
    reveal_strlit("YES");
    let p0 = seq![("ID"@, quoted(d.id))];
    let p1 = opt_push(p0, "CLASS"@, quoted_opt(d.class));
    let p2 = opt_push(p1, "START-DATE"@, quoted_opt(d.start_date));
    let p3 = opt_push(p2, "END-DATE"@, quoted_opt(d.end_date));
    let p4 = opt_push(p3, "DURATION"@, opt_duration(d.duration));
    let p5 = opt_push(p4, "PLANNED-DURATION"@, opt_duration(d.planned_duration));
    let p6 = opt_push(p5, "SCTE35-CMD"@, d.scte35_cmd);
    let p7 = opt_push(p6, "SCTE35-OUT"@, d.scte35_out);
    let p8 = opt_push(p7, "SCTE35-IN"@, d.scte35_in);
    assert(attr_list(p0) =~= "ID="@ + quoted(d.id));
    lemma_opt_push_text(p0, "CLASS"@, quoted_opt(d.class));
    lemma_opt_push_text(p1, "START-DATE"@, quoted_opt(d.start_date));
    lemma_opt_push_text(p2, "END-DATE"@, quoted_opt(d.end_date));
    lemma_opt_push_text(p3, "DURATION"@, opt_duration(d.duration));
    lemma_opt_push_text(p4, "PLANNED-DURATION"@, opt_duration(d.planned_duration));
    lemma_opt_push_text(p5, "SCTE35-CMD"@, d.scte35_cmd);
    lemma_opt_push_text(p6, "SCTE35-OUT"@, d.scte35_out);
    lemma_opt_push_text(p7, "SCTE35-IN"@, d.scte35_in);
    lemma_opt_push_text(p8, "END-ON-NEXT"@, yes_opt(d.end_on_next));
    lemma_quoted_chunk("CLASS"@, d.class);
    lemma_quoted_chunk("START-DATE"@, d.start_date);
    lemma_quoted_chunk("END-DATE"@, d.end_date);
    lemma_raw_chunk("DURATION"@, opt_duration(d.duration));
    lemma_raw_chunk("PLANNED-DURATION"@, opt_duration(d.planned_duration));
    lemma_raw_chunk("SCTE35-CMD"@, d.scte35_cmd);
    lemma_raw_chunk("SCTE35-OUT"@, d.scte35_out);
    lemma_raw_chunk("SCTE35-IN"@, d.scte35_in);
    assert(pair_chunk("END-ON-NEXT"@, yes_opt(d.end_on_next)) =~= if d.end_on_next {
        ",END-ON-NEXT=YES"@
    } else {
        seq![]
    }) by {
        reveal(pair_chunk);
    }
    assert(client_text(d.client_attributes) == Seq::<char>::empty());
    assert(date_range_head(d) + date_range_tail(d) =~= attr_list(date_range_pairs(d)));
}

/// The text of an optional duration is a value that reads back as itself and as the
/// duration.
proof fn lemma_opt_duration_value(x: Option<Duration>)
    requires
        x matches Some(t) ==> t.nanos() < 1_000_000_000,
    ensures
        opt_duration(x) matches Some(v) ==> wf_value(v) && !is_ws(v.last()) && Duration::spec_parse(v)
            == x,
{
    if let Some(t) = x {
        let v = t.spec_to_string();
        lemma_decimal_text_plain(t.secs(), t.nanos());
        assert(v[0] == v[0]);
        assert(crate::text::is_digit(v[0]) || v[0] == '.');
        assert(crate::text::is_digit(v[v.len() - 1]) || v[v.len() - 1] == '.');
        assert forall|i: int| 0 <= i < v.len() implies v[i] != '"' && v[i] != ',' by {
            assert(crate::text::is_digit(v[i]) || v[i] == '.');
        }
        lemma_plain_value(v);
        Duration::lemma_secs_bound(t);
        lemma_duration_roundtrip(t);
    }
}

/// A raw value that reads back as itself is a value of an attribute list.
proof fn lemma_raw_value(v: Option<Seq<char>>)
    requires
        raw_value_ok(v),
    ensures
        v matches Some(x) ==> wf_value(x) && strip_quotes(x) == x,
{
    if let Some(x) = v {
        lemma_plain_value(x);
        crate::text::lemma_strip_quotes_id(x);
    }
}

/// The pairs of a date range that reads back as itself read back as themselves.
proof fn lemma_date_range_pairs_wf(d: DateRangeView)
    requires
        date_range_reads_back(d),
    ensures
        wf_pairs(date_range_pairs(d)),
{
    reveal_strlit("ID");
    reveal_strlit("CLASS");
    reveal_strlit("START-DATE");
    reveal_strlit("END-DATE");
    reveal_strlit("DURATION");
    reveal_strlit("PLANNED-DURATION");
    reveal_strlit("SCTE35-CMD");
    reveal_strlit("SCTE35-OUT");
    reveal_strlit("SCTE35-IN");
    reveal_strlit("END-ON-NEXT");
    reveal_strlit("YES");
    lemma_plain_key("ID"@);
    lemma_plain_key("CLASS"@);
    lemma_plain_key("START-DATE"@);
    lemma_plain_key("END-DATE"@);
    lemma_plain_key("DURATION"@);
    lemma_plain_key("PLANNED-DURATION"@);
    lemma_plain_key("SCTE35-CMD"@);
    lemma_plain_key("SCTE35-OUT"@);
    lemma_plain_key("SCTE35-IN"@);
    lemma_plain_key("END-ON-NEXT"@);
    lemma_quoted_wf_value(d.id);
    if let Some(x) = d.class {
        lemma_quoted_wf_value(x);
    }
    if let Some(x) = d.start_date {
        lemma_quoted_wf_value(x);
    }
    if let Some(x) = d.end_date {
        lemma_quoted_wf_value(x);
    }
    lemma_opt_duration_value(d.duration);
    lemma_opt_duration_value(d.planned_duration);
    lemma_raw_value(d.scte35_cmd);
    lemma_raw_value(d.scte35_out);
    lemma_raw_value(d.scte35_in);
    lemma_plain_value("YES"@);
    let p0 = seq![("ID"@, quoted(d.id))];
    let p1 = opt_push(p0, "CLASS"@, quoted_opt(d.class));
    let p2 = opt_push(p1, "START-DATE"@, quoted_opt(d.start_date));
    let p3 = opt_push(p2, "END-DATE"@, quoted_opt(d.end_date));
    let p4 = opt_push(p3, "DURATION"@, opt_duration(d.duration));
    let p5 = opt_push(p4, "PLANNED-DURATION"@, opt_duration(d.planned_duration));
    let p6 = opt_push(p5, "SCTE35-CMD"@, d.scte35_cmd);
    let p7 = opt_push(p6, "SCTE35-OUT"@, d.scte35_out);
    let p8 = opt_push(p7, "SCTE35-IN"@, d.scte35_in);
    assert(wf_pairs(p0));
    lemma_opt_push_wf(p0, "CLASS"@, quoted_opt(d.class));
    lemma_opt_push_wf(p1, "START-DATE"@, quoted_opt(d.start_date));
    lemma_opt_push_wf(p2, "END-DATE"@, quoted_opt(d.end_date));
    lemma_opt_push_wf(p3, "DURATION"@, opt_duration(d.duration));
    lemma_opt_push_wf(p4, "PLANNED-DURATION"@, opt_duration(d.planned_duration));
    lemma_opt_push_wf(p5, "SCTE35-CMD"@, d.scte35_cmd);
    lemma_opt_push_wf(p6, "SCTE35-OUT"@, d.scte35_out);
    lemma_opt_push_wf(p7, "SCTE35-IN"@, d.scte35_in);
    lemma_opt_push_wf(p8, "END-ON-NEXT"@, yes_opt(d.end_on_next));
}

/// Reading a quoted value of the pairs gives the text back, when it holds no double
/// quote, line feed or carriage return.
proof fn lemma_quoted_read(ps: Seq<(Seq<char>, Seq<char>)>, k: Seq<char>, v: Option<Seq<char>>)
    requires
        values_for(ps, k) == opt_val(true, quoted_opt(v)),
        plain_opt(v),
    ensures
        quoted_attr(ps, k) == v,
{
    if let Some(x) = v {
        lemma_strip_quoted(x);
        assert(values_for(ps, k).last() == quoted(x));
    }
}

/// Reading a raw value of the pairs gives it back, when it reads back as itself.
proof fn lemma_raw_read(ps: Seq<(Seq<char>, Seq<char>)>, k: Seq<char>, v: Option<Seq<char>>)
    requires
        values_for(ps, k) == opt_val(true, v),
        raw_value_ok(v),
    ensures
        quoted_attr(ps, k) == v,
{
    lemma_raw_value(v);
    if let Some(x) = v {
        assert(values_for(ps, k).last() == x);
    }
}

/// Pairs without client keys have no client attributes.
proof fn lemma_no_client_attrs(ps: Seq<(Seq<char>, Seq<char>)>)
    requires
        forall|i: int| 0 <= i < ps.len() ==> !is_client_key(#[trigger] ps[i].0),
    ensures
        client_ok(ps),
        client_attrs_of(ps) == Seq::<(Seq<char>, ValueView)>::empty(),
    decreases ps.len(),
{
    if ps.len() > 0 {
        assert forall|i: int| 0 <= i < ps.drop_last().len() implies !is_client_key(
            #[trigger] ps.drop_last()[i].0,
        ) by {
            assert(ps.drop_last()[i] == ps[i]);
        }
        lemma_no_client_attrs(ps.drop_last());
        assert(!is_client_key(ps[ps.len() - 1].0));
    }
}

/// Reading the text of a date range gives the date range back, when it reads back as
/// itself: every field, `END-ON-NEXT` included, comes back.
pub proof fn lemma_date_range_roundtrip(d: DateRangeView)
    requires
        date_range_reads_back(d),
    ensures
        ExtXDateRange::spec_parse(date_range_text(d)) == Some(d),
{
    reveal_strlit("#EXT-X-DATERANGE:");
    reveal_strlit("YES");
    let ps = date_range_pairs(d);
    lemma_date_range_text_pairs(d);
    lemma_date_range_pairs_wf(d);
    lemma_attr_roundtrip(ps);
    let body = date_range_head(d) + date_range_tail(d);
    assert(body.len() > 0 && !is_ws(body.last())) by {
        lemma_pairs_last(d);
        lemma_attr_list_last(ps);
    }
    lemma_after_tag("#EXT-X-DATERANGE:"@, body);
    lemma_date_range_values_each(d);
    lemma_date_range_keys();
    lemma_quoted_read(ps, "ID"@, Some(d.id));
    lemma_quoted_read(ps, "CLASS"@, d.class);
    lemma_quoted_read(ps, "START-DATE"@, d.start_date);
    lemma_quoted_read(ps, "END-DATE"@, d.end_date);
    lemma_raw_read(ps, "SCTE35-CMD"@, d.scte35_cmd);
    lemma_raw_read(ps, "SCTE35-OUT"@, d.scte35_out);
    lemma_raw_read(ps, "SCTE35-IN"@, d.scte35_in);
    lemma_opt_duration_value(d.duration);
    lemma_opt_duration_value(d.planned_duration);
    if let Some(x) = d.duration {
        assert(values_for(ps, "DURATION"@).last() == x.spec_to_string());
    }
    if let Some(x) = d.planned_duration {
        assert(values_for(ps, "PLANNED-DURATION"@).last() == x.spec_to_string());
    }
    assert(attr_ok::<Duration>(ps, "DURATION"@));
    assert(attr_ok::<Duration>(ps, "PLANNED-DURATION"@));
    assert(attr_val::<Duration>(ps, "DURATION"@) == d.duration);
    assert(attr_val::<Duration>(ps, "PLANNED-DURATION"@) == d.planned_duration);
    assert(end_on_next_ok(ps));
    assert(values_for(ps, "END-ON-NEXT"@).len() > 0 <==> d.end_on_next);
    lemma_date_range_no_client_keys(d);
    lemma_no_client_attrs(ps);
    assert(d.client_attributes =~= Seq::<(Seq<char>, ValueView)>::empty());
    assert(date_range_attrs_ok(ps));
    assert(date_range_of_pairs(ps) == Some(d));
}

/// The text of the attribute list of pairs ends with the last character of the last
/// value, when that value is not empty.
proof fn lemma_attr_list_last(ps: Seq<(Seq<char>, Seq<char>)>)
    requires
        ps.len() > 0,
        ps.last().1.len() > 0,
    ensures
        attr_list(ps).len() > 0,
        attr_list(ps).last() == ps.last().1.last(),
{
    let t = pair_text(ps.last());
    assert(t.last() == ps.last().1.last());
    if ps.len() == 1 {
        assert(ps[0] == ps.last());
    }
}

/// The last pair of a date range has a value that is not empty and does not end with
/// white space.
proof fn lemma_pairs_last(d: DateRangeView)
    requires
        date_range_reads_back(d),
    ensures
        date_range_pairs(d).len() > 0,
        date_range_pairs(d).last().1.len() > 0,
        !is_ws(date_range_pairs(d).last().1.last()),
{
    reveal(opt_push);
    reveal_strlit("YES");
    lemma_opt_duration_value(d.duration);
    lemma_opt_duration_value(d.planned_duration);
    if let Some(x) = d.duration {
        lemma_decimal_text_plain(x.secs(), x.nanos());
    }
    if let Some(x) = d.planned_duration {
        lemma_decimal_text_plain(x.secs(), x.nanos());
    }
}

/// No key of the pairs of a date range is a client key.
proof fn lemma_date_range_no_client_keys(d: DateRangeView)
    ensures
        forall|i: int|
            0 <= i < date_range_pairs(d).len() ==> !is_client_key(#[trigger] date_range_pairs(d)[i].0),
{
    reveal_strlit("ID");
    reveal_strlit("CLASS");
    reveal_strlit("START-DATE");
    reveal_strlit("END-DATE");
    reveal_strlit("DURATION");
    reveal_strlit("PLANNED-DURATION");
    reveal_strlit("SCTE35-CMD");
    reveal_strlit("SCTE35-OUT");
    reveal_strlit("SCTE35-IN");
    reveal_strlit("END-ON-NEXT");
    reveal(opt_push);
    let ps = date_range_pairs(d);
    assert forall|i: int| 0 <= i < ps.len() implies !is_client_key(#[trigger] ps[i].0) by {
        assert(ps[i].0[0] != 'X');
    }
}

/// A text that reads back as a quoted value holds no line feed, and neither does the
/// quoted value.
proof fn lemma_quoted_no_lf(x: Seq<char>)
    requires
        plain_opt(Some(x)),
    ensures
        no_lf(x),
        no_lf(quoted(x)),
{
    lemma_strip_quotes_plain(x);
    let q = quoted(x);
    assert forall|i: int| 0 <= i < q.len() implies q[i] != '\n' by {
        if 0 < i < q.len() - 1 {
            assert(q[i] == x[i - 1]);
        }
    }
}

/// The optional quoted value of a plain text holds no line feed.
proof fn lemma_quoted_opt_no_lf(v: Option<Seq<char>>)
    requires
        plain_opt(v),
    ensures
        quoted_opt(v) matches Some(x) ==> no_lf(x),
{
    if let Some(x) = v {
        lemma_quoted_no_lf(x);
    }
}

/// The text of a date range that reads back as itself is one line that starts with the
/// tag and does not end with white space.
pub proof fn lemma_date_range_text_line(d: DateRangeView)
    requires
        date_range_reads_back(d),
    ensures
        starts_with(date_range_text(d), "#EXT-X-DATERANGE:"@),
        no_lf(date_range_text(d)),
        !is_ws(date_range_text(d).last()),
{
    reveal_strlit("#EXT-X-DATERANGE:");
    reveal_strlit("ID");
    reveal_strlit("CLASS");
    reveal_strlit("START-DATE");
    reveal_strlit("END-DATE");
    reveal_strlit("DURATION");
    reveal_strlit("PLANNED-DURATION");
    reveal_strlit("SCTE35-CMD");
    reveal_strlit("SCTE35-OUT");
    reveal_strlit("SCTE35-IN");
    reveal_strlit("END-ON-NEXT");
    reveal_strlit("YES");
    let ps = date_range_pairs(d);
    lemma_date_range_text_pairs(d);
    lemma_pairs_last(d);
    lemma_attr_list_last(ps);
    let p0 = seq![("ID"@, quoted(d.id))];
    let p1 = opt_push(p0, "CLASS"@, quoted_opt(d.class));
    let p2 = opt_push(p1, "START-DATE"@, quoted_opt(d.start_date));
    let p3 = opt_push(p2, "END-DATE"@, quoted_opt(d.end_date));
    let p4 = opt_push(p3, "DURATION"@, opt_duration(d.duration));
    let p5 = opt_push(p4, "PLANNED-DURATION"@, opt_duration(d.planned_duration));
    let p6 = opt_push(p5, "SCTE35-CMD"@, d.scte35_cmd);
    let p7 = opt_push(p6, "SCTE35-OUT"@, d.scte35_out);
    let p8 = opt_push(p7, "SCTE35-IN"@, d.scte35_in);
    lemma_quoted_no_lf(d.id);
    assert(pairs_no_lf(p0));
    lemma_quoted_opt_no_lf(d.class);
    lemma_quoted_opt_no_lf(d.start_date);
    lemma_quoted_opt_no_lf(d.end_date);
    if let Some(x) = d.duration {
        lemma_decimal_text_plain(x.secs(), x.nanos());
        let t = x.spec_to_string();
        assert forall|i: int| 0 <= i < t.len() implies t[i] != '\n' by {
            assert(crate::text::is_digit(t[i]) || t[i] == '.');
        }
    }
    if let Some(x) = d.planned_duration {
        lemma_decimal_text_plain(x.secs(), x.nanos());
        let t = x.spec_to_string();
        assert forall|i: int| 0 <= i < t.len() implies t[i] != '\n' by {
            assert(crate::text::is_digit(t[i]) || t[i] == '.');
        }
    }
    lemma_pairs_no_lf_opt_push(p0, "CLASS"@, quoted_opt(d.class));
    lemma_pairs_no_lf_opt_push(p1, "START-DATE"@, quoted_opt(d.start_date));
    lemma_pairs_no_lf_opt_push(p2, "END-DATE"@, quoted_opt(d.end_date));
    lemma_pairs_no_lf_opt_push(p3, "DURATION"@, opt_duration(d.duration));
    lemma_pairs_no_lf_opt_push(p4, "PLANNED-DURATION"@, opt_duration(d.planned_duration));
    lemma_pairs_no_lf_opt_push(p5, "SCTE35-CMD"@, d.scte35_cmd);
    lemma_pairs_no_lf_opt_push(p6, "SCTE35-OUT"@, d.scte35_out);
    lemma_pairs_no_lf_opt_push(p7, "SCTE35-IN"@, d.scte35_in);
    lemma_pairs_no_lf_opt_push(p8, "END-ON-NEXT"@, yes_opt(d.end_on_next));
    lemma_attr_list_no_lf(ps);
    let body = date_range_head(d) + date_range_tail(d);
    let t = date_range_text(d);
    assert(t == "#EXT-X-DATERANGE:"@ + body);
    assert(t.take(17) =~= "#EXT-X-DATERANGE:"@);
    assert(t.last() == body.last());
    assert forall|i: int| 0 <= i < t.len() implies t[i] != '\n' by {
        if i >= 17 {
            assert(t[i] == body[i - 17]);
        }
    }
}

} // verus!
