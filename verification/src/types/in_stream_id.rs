use vstd::prelude::*;

use crate::attribute::AttrValue;
use crate::error::Error;
use crate::text::{chars_of, equals_str, push_str, string_of};

verus! {

/// The rendition within a media segment that carries closed captions
/// (`INSTREAM-ID`, RFC 8216 section 4.3.4.1).
#[derive(Debug, Clone, Copy, PartialEq, Eq, Structural, PartialOrd, Ord, Hash)]
pub enum InStreamId {
    /// Closed caption channel 1.
    Cc1,
    /// Closed caption channel 2.
    Cc2,
    /// Closed caption channel 3.
    Cc3,
    /// Closed caption channel 4.
    Cc4,
    /// Digital television service block 1.
    Service1,
    /// Digital television service block 2.
    Service2,
    /// Digital television service block 3.
    Service3,
    /// Digital television service block 4.
    Service4,
    /// Digital television service block 5.
    Service5,
    /// Digital television service block 6.
    Service6,
    /// Digital television service block 7.
    Service7,
    /// Digital television service block 8.
    Service8,
    /// Digital television service block 9.
    Service9,
    /// Digital television service block 10.
    Service10,
    /// Digital television service block 11.
    Service11,
    /// Digital television service block 12.
    Service12,
    /// Digital television service block 13.
    Service13,
    /// Digital television service block 14.
    Service14,
    /// Digital television service block 15.
    Service15,
    /// Digital television service block 16.
    Service16,
    /// Digital television service block 17.
    Service17,
    /// Digital television service block 18.
    Service18,
    /// Digital television service block 19.
    Service19,
    /// Digital television service block 20.
    Service20,
    /// Digital television service block 21.
    Service21,
    /// Digital television service block 22.
    Service22,
    /// Digital television service block 23.
    Service23,
    /// Digital television service block 24.
    Service24,
    /// Digital television service block 25.
    Service25,
    /// Digital television service block 26.
    Service26,
    /// Digital television service block 27.
    Service27,
    /// Digital television service block 28.
    Service28,
    /// Digital television service block 29.
    Service29,
    /// Digital television service block 30.
    Service30,
    /// Digital television service block 31.
    Service31,
    /// Digital television service block 32.
    Service32,
    /// Digital television service block 33.
    Service33,
    /// Digital television service block 34.
    Service34,
    /// Digital television service block 35.
    Service35,
    /// Digital television service block 36.
    Service36,
    /// Digital television service block 37.
    Service37,
    /// Digital television service block 38.
    Service38,
    /// Digital television service block 39.
    Service39,
    /// Digital television service block 40.
    Service40,
    /// Digital television service block 41.
    Service41,
    /// Digital television service block 42.
    Service42,
    /// Digital television service block 43.
    Service43,
    /// Digital television service block 44.
    Service44,
    /// Digital television service block 45.
    Service45,
    /// Digital television service block 46.
    Service46,
    /// Digital television service block 47.
    Service47,
    /// Digital television service block 48.
    Service48,
    /// Digital television service block 49.
    Service49,
    /// Digital television service block 50.
    Service50,
    /// Digital television service block 51.
    Service51,
    /// Digital television service block 52.
    Service52,
    /// Digital television service block 53.
    Service53,
    /// Digital television service block 54.
    Service54,
    /// Digital television service block 55.
    Service55,
    /// Digital television service block 56.
    Service56,
    /// Digital television service block 57.
    Service57,
    /// Digital television service block 58.
    Service58,
    /// Digital television service block 59.
    Service59,
    /// Digital television service block 60.
    Service60,
    /// Digital television service block 61.
    Service61,
    /// Digital television service block 62.
    Service62,
    /// Digital television service block 63.
    Service63,
}

impl InStreamId {
    /// The name of the value in a playlist.
    pub open spec fn name(self) -> Seq<char> {
        match self {
            InStreamId::Cc1 => "CC1"@,
            InStreamId::Cc2 => "CC2"@,
            InStreamId::Cc3 => "CC3"@,
            InStreamId::Cc4 => "CC4"@,
            InStreamId::Service1 => "SERVICE1"@,
            InStreamId::Service2 => "SERVICE2"@,
            InStreamId::Service3 => "SERVICE3"@,
            InStreamId::Service4 => "SERVICE4"@,
            InStreamId::Service5 => "SERVICE5"@,
            InStreamId::Service6 => "SERVICE6"@,
            InStreamId::Service7 => "SERVICE7"@,
            InStreamId::Service8 => "SERVICE8"@,
            InStreamId::Service9 => "SERVICE9"@,
            InStreamId::Service10 => "SERVICE10"@,
            InStreamId::Service11 => "SERVICE11"@,
            InStreamId::Service12 => "SERVICE12"@,
            InStreamId::Service13 => "SERVICE13"@,
            InStreamId::Service14 => "SERVICE14"@,
            InStreamId::Service15 => "SERVICE15"@,
            InStreamId::Service16 => "SERVICE16"@,
            InStreamId::Service17 => "SERVICE17"@,
            InStreamId::Service18 => "SERVICE18"@,
            InStreamId::Service19 => "SERVICE19"@,
            InStreamId::Service20 => "SERVICE20"@,
            InStreamId::Service21 => "SERVICE21"@,
            InStreamId::Service22 => "SERVICE22"@,
            InStreamId::Service23 => "SERVICE23"@,
            InStreamId::Service24 => "SERVICE24"@,
            InStreamId::Service25 => "SERVICE25"@,
            InStreamId::Service26 => "SERVICE26"@,
            InStreamId::Service27 => "SERVICE27"@,
            InStreamId::Service28 => "SERVICE28"@,
            InStreamId::Service29 => "SERVICE29"@,
            InStreamId::Service30 => "SERVICE30"@,
            InStreamId::Service31 => "SERVICE31"@,
            InStreamId::Service32 => "SERVICE32"@,
            InStreamId::Service33 => "SERVICE33"@,
            InStreamId::Service34 => "SERVICE34"@,
            InStreamId::Service35 => "SERVICE35"@,
            InStreamId::Service36 => "SERVICE36"@,
            InStreamId::Service37 => "SERVICE37"@,
            InStreamId::Service38 => "SERVICE38"@,
            InStreamId::Service39 => "SERVICE39"@,
            InStreamId::Service40 => "SERVICE40"@,
            InStreamId::Service41 => "SERVICE41"@,
            InStreamId::Service42 => "SERVICE42"@,
            InStreamId::Service43 => "SERVICE43"@,
            InStreamId::Service44 => "SERVICE44"@,
            InStreamId::Service45 => "SERVICE45"@,
            InStreamId::Service46 => "SERVICE46"@,
            InStreamId::Service47 => "SERVICE47"@,
            InStreamId::Service48 => "SERVICE48"@,
            InStreamId::Service49 => "SERVICE49"@,
            InStreamId::Service50 => "SERVICE50"@,
            InStreamId::Service51 => "SERVICE51"@,
            InStreamId::Service52 => "SERVICE52"@,
            InStreamId::Service53 => "SERVICE53"@,
            InStreamId::Service54 => "SERVICE54"@,
            InStreamId::Service55 => "SERVICE55"@,
            InStreamId::Service56 => "SERVICE56"@,
            InStreamId::Service57 => "SERVICE57"@,
            InStreamId::Service58 => "SERVICE58"@,
            InStreamId::Service59 => "SERVICE59"@,
            InStreamId::Service60 => "SERVICE60"@,
            InStreamId::Service61 => "SERVICE61"@,
            InStreamId::Service62 => "SERVICE62"@,
            InStreamId::Service63 => "SERVICE63"@,
        }
    }

    /// The value named `s`, if there is one.
    pub open spec fn spec_from_name(s: Seq<char>) -> Option<InStreamId> {
        if s == "CC1"@ {
            Some(InStreamId::Cc1)
        } else if s == "CC2"@ {
            Some(InStreamId::Cc2)
        } else if s == "CC3"@ {
            Some(InStreamId::Cc3)
        } else if s == "CC4"@ {
            Some(InStreamId::Cc4)
        } else if s == "SERVICE1"@ {
            Some(InStreamId::Service1)
        } else if s == "SERVICE2"@ {
            Some(InStreamId::Service2)
        } else if s == "SERVICE3"@ {
            Some(InStreamId::Service3)
        } else if s == "SERVICE4"@ {
            Some(InStreamId::Service4)
        } else if s == "SERVICE5"@ {
            Some(InStreamId::Service5)
        } else if s == "SERVICE6"@ {
            Some(InStreamId::Service6)
        } else if s == "SERVICE7"@ {
            Some(InStreamId::Service7)
        } else if s == "SERVICE8"@ {
            Some(InStreamId::Service8)
        } else if s == "SERVICE9"@ {
            Some(InStreamId::Service9)
        } else if s == "SERVICE10"@ {
            Some(InStreamId::Service10)
        } else if s == "SERVICE11"@ {
            Some(InStreamId::Service11)
        } else if s == "SERVICE12"@ {
            Some(InStreamId::Service12)
        } else if s == "SERVICE13"@ {
            Some(InStreamId::Service13)
        } else if s == "SERVICE14"@ {
            Some(InStreamId::Service14)
        } else if s == "SERVICE15"@ {
            Some(InStreamId::Service15)
        } else if s == "SERVICE16"@ {
            Some(InStreamId::Service16)
        } else if s == "SERVICE17"@ {
            Some(InStreamId::Service17)
        } else if s == "SERVICE18"@ {
            Some(InStreamId::Service18)
        } else if s == "SERVICE19"@ {
            Some(InStreamId::Service19)
        } else if s == "SERVICE20"@ {
            Some(InStreamId::Service20)
        } else if s == "SERVICE21"@ {
            Some(InStreamId::Service21)
        } else if s == "SERVICE22"@ {
            Some(InStreamId::Service22)
        } else if s == "SERVICE23"@ {
            Some(InStreamId::Service23)
        } else if s == "SERVICE24"@ {
            Some(InStreamId::Service24)
        } else if s == "SERVICE25"@ {
            Some(InStreamId::Service25)
        } else if s == "SERVICE26"@ {
            Some(InStreamId::Service26)
        } else if s == "SERVICE27"@ {
            Some(InStreamId::Service27)
        } else if s == "SERVICE28"@ {
            Some(InStreamId::Service28)
        } else if s == "SERVICE29"@ {
            Some(InStreamId::Service29)
        } else if s == "SERVICE30"@ {
            Some(InStreamId::Service30)
        } else if s == "SERVICE31"@ {
            Some(InStreamId::Service31)
        } else if s == "SERVICE32"@ {
            Some(InStreamId::Service32)
        } else if s == "SERVICE33"@ {
            Some(InStreamId::Service33)
        } else if s == "SERVICE34"@ {
            Some(InStreamId::Service34)
        } else if s == "SERVICE35"@ {
            Some(InStreamId::Service35)
        } else if s == "SERVICE36"@ {
            Some(InStreamId::Service36)
        } else if s == "SERVICE37"@ {
            Some(InStreamId::Service37)
        } else if s == "SERVICE38"@ {
            Some(InStreamId::Service38)
        } else if s == "SERVICE39"@ {
            Some(InStreamId::Service39)
        } else if s == "SERVICE40"@ {
            Some(InStreamId::Service40)
        } else if s == "SERVICE41"@ {
            Some(InStreamId::Service41)
        } else if s == "SERVICE42"@ {
            Some(InStreamId::Service42)
        } else if s == "SERVICE43"@ {
            Some(InStreamId::Service43)
        } else if s == "SERVICE44"@ {
            Some(InStreamId::Service44)
        } else if s == "SERVICE45"@ {
            Some(InStreamId::Service45)
        } else if s == "SERVICE46"@ {
            Some(InStreamId::Service46)
        } else if s == "SERVICE47"@ {
            Some(InStreamId::Service47)
        } else if s == "SERVICE48"@ {
            Some(InStreamId::Service48)
        } else if s == "SERVICE49"@ {
            Some(InStreamId::Service49)
        } else if s == "SERVICE50"@ {
            Some(InStreamId::Service50)
        } else if s == "SERVICE51"@ {
            Some(InStreamId::Service51)
        } else if s == "SERVICE52"@ {
            Some(InStreamId::Service52)
        } else if s == "SERVICE53"@ {
            Some(InStreamId::Service53)
        } else if s == "SERVICE54"@ {
            Some(InStreamId::Service54)
        } else if s == "SERVICE55"@ {
            Some(InStreamId::Service55)
        } else if s == "SERVICE56"@ {
            Some(InStreamId::Service56)
        } else if s == "SERVICE57"@ {
            Some(InStreamId::Service57)
        } else if s == "SERVICE58"@ {
            Some(InStreamId::Service58)
        } else if s == "SERVICE59"@ {
            Some(InStreamId::Service59)
        } else if s == "SERVICE60"@ {
            Some(InStreamId::Service60)
        } else if s == "SERVICE61"@ {
            Some(InStreamId::Service61)
        } else if s == "SERVICE62"@ {
            Some(InStreamId::Service62)
        } else if s == "SERVICE63"@ {
            Some(InStreamId::Service63)
        } else {
            None
        }
    }

    /// Reads the value from its name.
    pub fn parse_chars(v: &Vec<char>) -> (res: Result<InStreamId, Error>)
        ensures
            res is Ok <==> Self::spec_from_name(v@) is Some,
            res matches Ok(x) ==> Self::spec_from_name(v@) == Some(x),
    {
        if equals_str(v, "CC1") {
            Ok(InStreamId::Cc1)
        } else if equals_str(v, "CC2") {
            Ok(InStreamId::Cc2)
        } else if equals_str(v, "CC3") {
            Ok(InStreamId::Cc3)
        } else if equals_str(v, "CC4") {
            Ok(InStreamId::Cc4)
        } else if equals_str(v, "SERVICE1") {
            Ok(InStreamId::Service1)
        } else if equals_str(v, "SERVICE2") {
            Ok(InStreamId::Service2)
        } else if equals_str(v, "SERVICE3") {
            Ok(InStreamId::Service3)
        } else if equals_str(v, "SERVICE4") {
            Ok(InStreamId::Service4)
        } else if equals_str(v, "SERVICE5") {
            Ok(InStreamId::Service5)
        } else if equals_str(v, "SERVICE6") {
            Ok(InStreamId::Service6)
        } else if equals_str(v, "SERVICE7") {
            Ok(InStreamId::Service7)
        } else if equals_str(v, "SERVICE8") {
            Ok(InStreamId::Service8)
        } else if equals_str(v, "SERVICE9") {
            Ok(InStreamId::Service9)
        } else if equals_str(v, "SERVICE10") {
            Ok(InStreamId::Service10)
        } else if equals_str(v, "SERVICE11") {
            Ok(InStreamId::Service11)
        } else if equals_str(v, "SERVICE12") {
            Ok(InStreamId::Service12)
        } else if equals_str(v, "SERVICE13") {
            Ok(InStreamId::Service13)
        } else if equals_str(v, "SERVICE14") {
            Ok(InStreamId::Service14)
        } else if equals_str(v, "SERVICE15") {
            Ok(InStreamId::Service15)
        } else if equals_str(v, "SERVICE16") {
            Ok(InStreamId::Service16)
        } else if equals_str(v, "SERVICE17") {
            Ok(InStreamId::Service17)
        } else if equals_str(v, "SERVICE18") {
            Ok(InStreamId::Service18)
        } else if equals_str(v, "SERVICE19") {
            Ok(InStreamId::Service19)
        } else if equals_str(v, "SERVICE20") {
            Ok(InStreamId::Service20)
        } else if equals_str(v, "SERVICE21") {
            Ok(InStreamId::Service21)
        } else if equals_str(v, "SERVICE22") {
            Ok(InStreamId::Service22)
        } else if equals_str(v, "SERVICE23") {
            Ok(InStreamId::Service23)
        } else if equals_str(v, "SERVICE24") {
            Ok(InStreamId::Service24)
        } else if equals_str(v, "SERVICE25") {
            Ok(InStreamId::Service25)
        } else if equals_str(v, "SERVICE26") {
            Ok(InStreamId::Service26)
        } else if equals_str(v, "SERVICE27") {
            Ok(InStreamId::Service27)
        } else if equals_str(v, "SERVICE28") {
            Ok(InStreamId::Service28)
        } else if equals_str(v, "SERVICE29") {
            Ok(InStreamId::Service29)
        } else if equals_str(v, "SERVICE30") {
            Ok(InStreamId::Service30)
        } else if equals_str(v, "SERVICE31") {
            Ok(InStreamId::Service31)
        } else if equals_str(v, "SERVICE32") {
            Ok(InStreamId::Service32)
        } else if equals_str(v, "SERVICE33") {
            Ok(InStreamId::Service33)
        } else if equals_str(v, "SERVICE34") {
            Ok(InStreamId::Service34)
        } else if equals_str(v, "SERVICE35") {
            Ok(InStreamId::Service35)
        } else if equals_str(v, "SERVICE36") {
            Ok(InStreamId::Service36)
        } else if equals_str(v, "SERVICE37") {
            Ok(InStreamId::Service37)
        } else if equals_str(v, "SERVICE38") {
            Ok(InStreamId::Service38)
        } else if equals_str(v, "SERVICE39") {
            Ok(InStreamId::Service39)
        } else if equals_str(v, "SERVICE40") {
            Ok(InStreamId::Service40)
        } else if equals_str(v, "SERVICE41") {
            Ok(InStreamId::Service41)
        } else if equals_str(v, "SERVICE42") {
            Ok(InStreamId::Service42)
        } else if equals_str(v, "SERVICE43") {
            Ok(InStreamId::Service43)
        } else if equals_str(v, "SERVICE44") {
            Ok(InStreamId::Service44)
        } else if equals_str(v, "SERVICE45") {
            Ok(InStreamId::Service45)
        } else if equals_str(v, "SERVICE46") {
            Ok(InStreamId::Service46)
        } else if equals_str(v, "SERVICE47") {
            Ok(InStreamId::Service47)
        } else if equals_str(v, "SERVICE48") {
            Ok(InStreamId::Service48)
        } else if equals_str(v, "SERVICE49") {
            Ok(InStreamId::Service49)
        } else if equals_str(v, "SERVICE50") {
            Ok(InStreamId::Service50)
        } else if equals_str(v, "SERVICE51") {
            Ok(InStreamId::Service51)
        } else if equals_str(v, "SERVICE52") {
            Ok(InStreamId::Service52)
        } else if equals_str(v, "SERVICE53") {
            Ok(InStreamId::Service53)
        } else if equals_str(v, "SERVICE54") {
            Ok(InStreamId::Service54)
        } else if equals_str(v, "SERVICE55") {
            Ok(InStreamId::Service55)
        } else if equals_str(v, "SERVICE56") {
            Ok(InStreamId::Service56)
        } else if equals_str(v, "SERVICE57") {
            Ok(InStreamId::Service57)
        } else if equals_str(v, "SERVICE58") {
            Ok(InStreamId::Service58)
        } else if equals_str(v, "SERVICE59") {
            Ok(InStreamId::Service59)
        } else if equals_str(v, "SERVICE60") {
            Ok(InStreamId::Service60)
        } else if equals_str(v, "SERVICE61") {
            Ok(InStreamId::Service61)
        } else if equals_str(v, "SERVICE62") {
            Ok(InStreamId::Service62)
        } else if equals_str(v, "SERVICE63") {
            Ok(InStreamId::Service63)
        } else {
            Err(Error::InvalidInput)
        }
    }

    /// Reads the value from its name.
    pub fn try_from(input: &str) -> (res: Result<InStreamId, Error>)
        ensures
            res is Ok <==> Self::spec_from_name(input@) is Some,
            res matches Ok(x) ==> Self::spec_from_name(input@) == Some(x),
    {
        Self::parse_chars(&chars_of(input))
    }

    /// Appends the name of the value to `out`.
    pub fn write(&self, out: &mut Vec<char>)
        ensures
            final(out)@ == old(out)@ + self.name(),
    {
        match self {
            InStreamId::Cc1 => push_str(out, "CC1"),
            InStreamId::Cc2 => push_str(out, "CC2"),
            InStreamId::Cc3 => push_str(out, "CC3"),
            InStreamId::Cc4 => push_str(out, "CC4"),
            InStreamId::Service1 => push_str(out, "SERVICE1"),
            InStreamId::Service2 => push_str(out, "SERVICE2"),
            InStreamId::Service3 => push_str(out, "SERVICE3"),
            InStreamId::Service4 => push_str(out, "SERVICE4"),
            InStreamId::Service5 => push_str(out, "SERVICE5"),
            InStreamId::Service6 => push_str(out, "SERVICE6"),
            InStreamId::Service7 => push_str(out, "SERVICE7"),
            InStreamId::Service8 => push_str(out, "SERVICE8"),
            InStreamId::Service9 => push_str(out, "SERVICE9"),
            InStreamId::Service10 => push_str(out, "SERVICE10"),
            InStreamId::Service11 => push_str(out, "SERVICE11"),
            InStreamId::Service12 => push_str(out, "SERVICE12"),
            InStreamId::Service13 => push_str(out, "SERVICE13"),
            InStreamId::Service14 => push_str(out, "SERVICE14"),
            InStreamId::Service15 => push_str(out, "SERVICE15"),
            InStreamId::Service16 => push_str(out, "SERVICE16"),
            InStreamId::Service17 => push_str(out, "SERVICE17"),
            InStreamId::Service18 => push_str(out, "SERVICE18"),
            InStreamId::Service19 => push_str(out, "SERVICE19"),
            InStreamId::Service20 => push_str(out, "SERVICE20"),
            InStreamId::Service21 => push_str(out, "SERVICE21"),
            InStreamId::Service22 => push_str(out, "SERVICE22"),
            InStreamId::Service23 => push_str(out, "SERVICE23"),
            InStreamId::Service24 => push_str(out, "SERVICE24"),
            InStreamId::Service25 => push_str(out, "SERVICE25"),
            InStreamId::Service26 => push_str(out, "SERVICE26"),
            InStreamId::Service27 => push_str(out, "SERVICE27"),
            InStreamId::Service28 => push_str(out, "SERVICE28"),
            InStreamId::Service29 => push_str(out, "SERVICE29"),
            InStreamId::Service30 => push_str(out, "SERVICE30"),
            InStreamId::Service31 => push_str(out, "SERVICE31"),
            InStreamId::Service32 => push_str(out, "SERVICE32"),
            InStreamId::Service33 => push_str(out, "SERVICE33"),
            InStreamId::Service34 => push_str(out, "SERVICE34"),
            InStreamId::Service35 => push_str(out, "SERVICE35"),
            InStreamId::Service36 => push_str(out, "SERVICE36"),
            InStreamId::Service37 => push_str(out, "SERVICE37"),
            InStreamId::Service38 => push_str(out, "SERVICE38"),
            InStreamId::Service39 => push_str(out, "SERVICE39"),
            InStreamId::Service40 => push_str(out, "SERVICE40"),
            InStreamId::Service41 => push_str(out, "SERVICE41"),
            InStreamId::Service42 => push_str(out, "SERVICE42"),
            InStreamId::Service43 => push_str(out, "SERVICE43"),
            InStreamId::Service44 => push_str(out, "SERVICE44"),
            InStreamId::Service45 => push_str(out, "SERVICE45"),
            InStreamId::Service46 => push_str(out, "SERVICE46"),
            InStreamId::Service47 => push_str(out, "SERVICE47"),
            InStreamId::Service48 => push_str(out, "SERVICE48"),
            InStreamId::Service49 => push_str(out, "SERVICE49"),
            InStreamId::Service50 => push_str(out, "SERVICE50"),
            InStreamId::Service51 => push_str(out, "SERVICE51"),
            InStreamId::Service52 => push_str(out, "SERVICE52"),
            InStreamId::Service53 => push_str(out, "SERVICE53"),
            InStreamId::Service54 => push_str(out, "SERVICE54"),
            InStreamId::Service55 => push_str(out, "SERVICE55"),
            InStreamId::Service56 => push_str(out, "SERVICE56"),
            InStreamId::Service57 => push_str(out, "SERVICE57"),
            InStreamId::Service58 => push_str(out, "SERVICE58"),
            InStreamId::Service59 => push_str(out, "SERVICE59"),
            InStreamId::Service60 => push_str(out, "SERVICE60"),
            InStreamId::Service61 => push_str(out, "SERVICE61"),
            InStreamId::Service62 => push_str(out, "SERVICE62"),
            InStreamId::Service63 => push_str(out, "SERVICE63"),
        }
    }

    /// The name of the value.
    pub fn to_string(&self) -> (res: String)
        ensures
            res@ == self.name(),
    {
        let mut out = Vec::new();
        self.write(&mut out);
        string_of(&out)
    }
}

impl AttrValue for InStreamId {
    open spec fn spec_value(s: Seq<char>) -> Option<InStreamId> {
        Self::spec_from_name(s)
    }

    fn parse_value(v: &Vec<char>) -> (res: Result<InStreamId, Error>) {
        Self::parse_chars(v)
    }
}

/// A name holds only uppercase ASCII letters, digits and `-`.
pub proof fn lemma_in_stream_id_plain(x: InStreamId)
    ensures
        forall|i: int| 0 <= i < x.name().len() ==> ('A' <= #[trigger] x.name()[i] <= 'Z') || ('0' <= x.name()[i] <= '9') || x.name()[i] == '-',
{
    match x {
        InStreamId::Cc1 => {
            reveal_strlit("CC1");
        },
        InStreamId::Cc2 => {
            reveal_strlit("CC2");
        },
        InStreamId::Cc3 => {
            reveal_strlit("CC3");
        },
        InStreamId::Cc4 => {
            reveal_strlit("CC4");
        },
        InStreamId::Service1 => {
            reveal_strlit("SERVICE1");
        },
        InStreamId::Service2 => {
            reveal_strlit("SERVICE2");
        },
        InStreamId::Service3 => {
            reveal_strlit("SERVICE3");
        },
        InStreamId::Service4 => {
            reveal_strlit("SERVICE4");
        },
        InStreamId::Service5 => {
            reveal_strlit("SERVICE5");
        },
        InStreamId::Service6 => {
            reveal_strlit("SERVICE6");
        },
        InStreamId::Service7 => {
            reveal_strlit("SERVICE7");
        },
        InStreamId::Service8 => {
            reveal_strlit("SERVICE8");
        },
        InStreamId::Service9 => {
            reveal_strlit("SERVICE9");
        },
        InStreamId::Service10 => {
            reveal_strlit("SERVICE10");
        },
        InStreamId::Service11 => {
            reveal_strlit("SERVICE11");
        },
        InStreamId::Service12 => {
            reveal_strlit("SERVICE12");
        },
        InStreamId::Service13 => {
            reveal_strlit("SERVICE13");
        },
        InStreamId::Service14 => {
            reveal_strlit("SERVICE14");
        },
        InStreamId::Service15 => {
            reveal_strlit("SERVICE15");
        },
        InStreamId::Service16 => {
            reveal_strlit("SERVICE16");
        },
        InStreamId::Service17 => {
            reveal_strlit("SERVICE17");
        },
        InStreamId::Service18 => {
            reveal_strlit("SERVICE18");
        },
        InStreamId::Service19 => {
            reveal_strlit("SERVICE19");
        },
        InStreamId::Service20 => {
            reveal_strlit("SERVICE20");
        },
        InStreamId::Service21 => {
            reveal_strlit("SERVICE21");
        },
        InStreamId::Service22 => {
            reveal_strlit("SERVICE22");
        },
        InStreamId::Service23 => {
            reveal_strlit("SERVICE23");
        },
        InStreamId::Service24 => {
            reveal_strlit("SERVICE24");
        },
        InStreamId::Service25 => {
            reveal_strlit("SERVICE25");
        },
        InStreamId::Service26 => {
            reveal_strlit("SERVICE26");
        },
        InStreamId::Service27 => {
            reveal_strlit("SERVICE27");
        },
        InStreamId::Service28 => {
            reveal_strlit("SERVICE28");
        },
        InStreamId::Service29 => {
            reveal_strlit("SERVICE29");
        },
        InStreamId::Service30 => {
            reveal_strlit("SERVICE30");
        },
        InStreamId::Service31 => {
            reveal_strlit("SERVICE31");
        },
        InStreamId::Service32 => {
            reveal_strlit("SERVICE32");
        },
        InStreamId::Service33 => {
            reveal_strlit("SERVICE33");
        },
        InStreamId::Service34 => {
            reveal_strlit("SERVICE34");
        },
        InStreamId::Service35 => {
            reveal_strlit("SERVICE35");
        },
        InStreamId::Service36 => {
            reveal_strlit("SERVICE36");
        },
        InStreamId::Service37 => {
            reveal_strlit("SERVICE37");
        },
        InStreamId::Service38 => {
            reveal_strlit("SERVICE38");
        },
        InStreamId::Service39 => {
            reveal_strlit("SERVICE39");
        },
        InStreamId::Service40 => {
            reveal_strlit("SERVICE40");
        },
        InStreamId::Service41 => {
            reveal_strlit("SERVICE41");
        },
        InStreamId::Service42 => {
            reveal_strlit("SERVICE42");
        },
        InStreamId::Service43 => {
            reveal_strlit("SERVICE43");
        },
        InStreamId::Service44 => {
            reveal_strlit("SERVICE44");
        },
        InStreamId::Service45 => {
            reveal_strlit("SERVICE45");
        },
        InStreamId::Service46 => {
            reveal_strlit("SERVICE46");
        },
        InStreamId::Service47 => {
            reveal_strlit("SERVICE47");
        },
        InStreamId::Service48 => {
            reveal_strlit("SERVICE48");
        },
        InStreamId::Service49 => {
            reveal_strlit("SERVICE49");
        },
        InStreamId::Service50 => {
            reveal_strlit("SERVICE50");
        },
        InStreamId::Service51 => {
            reveal_strlit("SERVICE51");
        },
        InStreamId::Service52 => {
            reveal_strlit("SERVICE52");
        },
        InStreamId::Service53 => {
            reveal_strlit("SERVICE53");
        },
        InStreamId::Service54 => {
            reveal_strlit("SERVICE54");
        },
        InStreamId::Service55 => {
            reveal_strlit("SERVICE55");
        },
        InStreamId::Service56 => {
            reveal_strlit("SERVICE56");
        },
        InStreamId::Service57 => {
            reveal_strlit("SERVICE57");
        },
        InStreamId::Service58 => {
            reveal_strlit("SERVICE58");
        },
        InStreamId::Service59 => {
            reveal_strlit("SERVICE59");
        },
        InStreamId::Service60 => {
            reveal_strlit("SERVICE60");
        },
        InStreamId::Service61 => {
            reveal_strlit("SERVICE61");
        },
        InStreamId::Service62 => {
            reveal_strlit("SERVICE62");
        },
        InStreamId::Service63 => {
            reveal_strlit("SERVICE63");
        },
    }
}

/// A number that tells the names of in-stream ids apart: the digits at their end.
spec fn name_code(s: Seq<char>) -> int {
    if s.len() == 3 {
        s[2] as int - '0' as int
    } else if s.len() == 8 {
        4 + (s[7] as int - '0' as int)
    } else {
        4 + 10 * (s[7] as int - '0' as int) + (s[8] as int - '0' as int)
    }
}

/// Reading the name of an in-stream id gives the id back.
pub proof fn lemma_in_stream_id_roundtrip(x: InStreamId)
    ensures
        InStreamId::spec_from_name(x.name()) == Some(x),
{
    reveal_strlit("CC1");
    assert(name_code("CC1"@) == 1);
    reveal_strlit("CC2");
    assert(name_code("CC2"@) == 2);
    reveal_strlit("CC3");
    assert(name_code("CC3"@) == 3);
    reveal_strlit("CC4");
    assert(name_code("CC4"@) == 4);
    reveal_strlit("SERVICE1");
    assert(name_code("SERVICE1"@) == 5);
    reveal_strlit("SERVICE2");
    assert(name_code("SERVICE2"@) == 6);
    reveal_strlit("SERVICE3");
    assert(name_code("SERVICE3"@) == 7);
    reveal_strlit("SERVICE4");
    assert(name_code("SERVICE4"@) == 8);
    reveal_strlit("SERVICE5");
    assert(name_code("SERVICE5"@) == 9);
    reveal_strlit("SERVICE6");
    assert(name_code("SERVICE6"@) == 10);
    reveal_strlit("SERVICE7");
    assert(name_code("SERVICE7"@) == 11);
    reveal_strlit("SERVICE8");
    assert(name_code("SERVICE8"@) == 12);
    reveal_strlit("SERVICE9");
    assert(name_code("SERVICE9"@) == 13);
    reveal_strlit("SERVICE10");
    assert(name_code("SERVICE10"@) == 14);
    reveal_strlit("SERVICE11");
    assert(name_code("SERVICE11"@) == 15);
    reveal_strlit("SERVICE12");
    assert(name_code("SERVICE12"@) == 16);
    reveal_strlit("SERVICE13");
    assert(name_code("SERVICE13"@) == 17);
    reveal_strlit("SERVICE14");
    assert(name_code("SERVICE14"@) == 18);
    reveal_strlit("SERVICE15");
    assert(name_code("SERVICE15"@) == 19);
    reveal_strlit("SERVICE16");
    assert(name_code("SERVICE16"@) == 20);
    reveal_strlit("SERVICE17");
    assert(name_code("SERVICE17"@) == 21);
    reveal_strlit("SERVICE18");
    assert(name_code("SERVICE18"@) == 22);
    reveal_strlit("SERVICE19");
    assert(name_code("SERVICE19"@) == 23);
    reveal_strlit("SERVICE20");
    assert(name_code("SERVICE20"@) == 24);
    reveal_strlit("SERVICE21");
    assert(name_code("SERVICE21"@) == 25);
    reveal_strlit("SERVICE22");
    assert(name_code("SERVICE22"@) == 26);
    reveal_strlit("SERVICE23");
    assert(name_code("SERVICE23"@) == 27);
    reveal_strlit("SERVICE24");
    assert(name_code("SERVICE24"@) == 28);
    reveal_strlit("SERVICE25");
    assert(name_code("SERVICE25"@) == 29);
    reveal_strlit("SERVICE26");
    assert(name_code("SERVICE26"@) == 30);
    reveal_strlit("SERVICE27");
    assert(name_code("SERVICE27"@) == 31);
    reveal_strlit("SERVICE28");
    assert(name_code("SERVICE28"@) == 32);
    reveal_strlit("SERVICE29");
    assert(name_code("SERVICE29"@) == 33);
    reveal_strlit("SERVICE30");
    assert(name_code("SERVICE30"@) == 34);
    reveal_strlit("SERVICE31");
    assert(name_code("SERVICE31"@) == 35);
    reveal_strlit("SERVICE32");
    assert(name_code("SERVICE32"@) == 36);
    reveal_strlit("SERVICE33");
    assert(name_code("SERVICE33"@) == 37);
    reveal_strlit("SERVICE34");
    assert(name_code("SERVICE34"@) == 38);
    reveal_strlit("SERVICE35");
    assert(name_code("SERVICE35"@) == 39);
    reveal_strlit("SERVICE36");
    assert(name_code("SERVICE36"@) == 40);
    reveal_strlit("SERVICE37");
    assert(name_code("SERVICE37"@) == 41);
    reveal_strlit("SERVICE38");
    assert(name_code("SERVICE38"@) == 42);
    reveal_strlit("SERVICE39");
    assert(name_code("SERVICE39"@) == 43);
    reveal_strlit("SERVICE40");
    assert(name_code("SERVICE40"@) == 44);
    reveal_strlit("SERVICE41");
    assert(name_code("SERVICE41"@) == 45);
    reveal_strlit("SERVICE42");
    assert(name_code("SERVICE42"@) == 46);
    reveal_strlit("SERVICE43");
    assert(name_code("SERVICE43"@) == 47);
    reveal_strlit("SERVICE44");
    assert(name_code("SERVICE44"@) == 48);
    reveal_strlit("SERVICE45");
    assert(name_code("SERVICE45"@) == 49);
    reveal_strlit("SERVICE46");
    assert(name_code("SERVICE46"@) == 50);
    reveal_strlit("SERVICE47");
    assert(name_code("SERVICE47"@) == 51);
    reveal_strlit("SERVICE48");
    assert(name_code("SERVICE48"@) == 52);
    reveal_strlit("SERVICE49");
    assert(name_code("SERVICE49"@) == 53);
    reveal_strlit("SERVICE50");
    assert(name_code("SERVICE50"@) == 54);
    reveal_strlit("SERVICE51");
    assert(name_code("SERVICE51"@) == 55);
    reveal_strlit("SERVICE52");
    assert(name_code("SERVICE52"@) == 56);
    reveal_strlit("SERVICE53");
    assert(name_code("SERVICE53"@) == 57);
    reveal_strlit("SERVICE54");
    assert(name_code("SERVICE54"@) == 58);
    reveal_strlit("SERVICE55");
    assert(name_code("SERVICE55"@) == 59);
    reveal_strlit("SERVICE56");
    assert(name_code("SERVICE56"@) == 60);
    reveal_strlit("SERVICE57");
    assert(name_code("SERVICE57"@) == 61);
    reveal_strlit("SERVICE58");
    assert(name_code("SERVICE58"@) == 62);
    reveal_strlit("SERVICE59");
    assert(name_code("SERVICE59"@) == 63);
    reveal_strlit("SERVICE60");
    assert(name_code("SERVICE60"@) == 64);
    reveal_strlit("SERVICE61");
    assert(name_code("SERVICE61"@) == 65);
    reveal_strlit("SERVICE62");
    assert(name_code("SERVICE62"@) == 66);
    reveal_strlit("SERVICE63");
    assert(name_code("SERVICE63"@) == 67);
}

} // verus!
