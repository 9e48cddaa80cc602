use vstd::prelude::*;

use crate::text::same_text;

verus! {

/// The audio format that downloaded songs are converted to.
#[derive(Debug, PartialEq, Eq, Structural, Clone, Copy)]
pub enum CodecPreference {
    FLAC,
    MP3,
    AAC,
    WAV,
    OGG,
}

/// The lower-case name of a codec, which is also the extension of the files
/// written in it.
pub open spec fn codec_name(c: CodecPreference) -> Seq<char> {
    match c {
        CodecPreference::FLAC => "flac"@,
        CodecPreference::MP3 => "mp3"@,
        CodecPreference::AAC => "aac"@,
        CodecPreference::WAV => "wav"@,
        CodecPreference::OGG => "ogg"@,
    }
}

/// The codec that a stored name stands for; any unknown name means MP3.
pub open spec fn codec_from_name(s: Seq<char>) -> CodecPreference {
    if s == "flac"@ {
        CodecPreference::FLAC
    } else if s == "mp3"@ {
        CodecPreference::MP3
    } else if s == "aac"@ {
        CodecPreference::AAC
    } else if s == "wav"@ {
        CodecPreference::WAV
    } else if s == "ogg"@ {
        CodecPreference::OGG
    } else {
        CodecPreference::MP3
    }
}

impl CodecPreference {
    /// The codec's lower-case name ("flac", "mp3", "aac", "wav" or "ogg").
    pub fn to_string(&self) -> (s: String)
        ensures
            s@ == codec_name(*self),
    {
        match self {
            CodecPreference::FLAC => String::from_str("flac"),
            CodecPreference::MP3 => String::from_str("mp3"),
            CodecPreference::AAC => String::from_str("aac"),
            CodecPreference::WAV => String::from_str("wav"),
            CodecPreference::OGG => String::from_str("ogg"),
        }
    }

    /// The codec named by `string`; a name it does not know gives MP3.
    pub fn to_codec(string: &str) -> (c: CodecPreference)
        ensures
            c == codec_from_name(string@),
    {
        if same_text(string, "flac") {
            CodecPreference::FLAC
        } else if same_text(string, "mp3") {
            CodecPreference::MP3
        } else if same_text(string, "aac") {
            CodecPreference::AAC
        } else if same_text(string, "wav") {
            CodecPreference::WAV
        } else if same_text(string, "ogg") {
            CodecPreference::OGG
        } else {
            CodecPreference::MP3
        }
    }
}

impl Default for CodecPreference {
    /// MP3 is the codec used until the user picks another.
    fn default() -> (c: CodecPreference)
        ensures
            c == CodecPreference::MP3,
    {
        CodecPreference::MP3
    }
}

/// The five codec names are pairwise different.
proof fn lemma_codec_names_distinct()
    ensures
        "flac"@ != "mp3"@,
        "flac"@ != "aac"@,
        "flac"@ != "wav"@,
        "flac"@ != "ogg"@,
        "mp3"@ != "aac"@,
        "mp3"@ != "wav"@,
        "mp3"@ != "ogg"@,
        "aac"@ != "wav"@,
        "aac"@ != "ogg"@,
        "wav"@ != "ogg"@,
{
    reveal_strlit("flac");
    reveal_strlit("mp3");
    reveal_strlit("aac");
    reveal_strlit("wav");
    reveal_strlit("ogg");
    assert("flac"@[0] != "mp3"@[0]);
    assert("flac"@[0] != "aac"@[0]);
    assert("flac"@[0] != "wav"@[0]);
    assert("flac"@[0] != "ogg"@[0]);
    assert("mp3"@[0] != "aac"@[0]);
    assert("mp3"@[0] != "wav"@[0]);
    assert("mp3"@[0] != "ogg"@[0]);
    assert("aac"@[0] != "wav"@[0]);
    assert("aac"@[0] != "ogg"@[0]);
    assert("wav"@[0] != "ogg"@[0]);
}

/// Reading back the name that `to_string` writes gives the same codec.
pub proof fn lemma_codec_name_round_trip(c: CodecPreference)
    ensures
        codec_from_name(codec_name(c)) == c,
{
    lemma_codec_names_distinct();
}

/// Two codecs with the same name are the same codec.
pub proof fn lemma_codec_name_injective(a: CodecPreference, b: CodecPreference)
    ensures
        codec_name(a) == codec_name(b) ==> a == b,
{
    lemma_codec_name_round_trip(a);
    lemma_codec_name_round_trip(b);
}

} // verus!
