//! Speech synthesis jobs and results, and the text filtering applied to a
//! record before it is handed to a voice engine.

use vstd::prelude::*;

use crate::scheduler::Record;
use crate::voicegen_data::NetAddr;
use crate::voicegen_filter::{replace_retweet, replace_url};

verus! {

/// A synthesis job: the text to speak and the voice parameters to use.
/// `speech_rate_milli` holds the speech-rate multiplier in thousandths.
#[derive(Debug)]
pub struct Playbook {
    pub tweet_id: String,
    pub text: String,
    pub name: String,
    pub addr: NetAddr,
    pub speaker: u64,
    pub speech_rate_milli: u64,
}

/// Synthesized audio for one record: one buffer for the spoken author
/// name, one for the spoken body text.
#[derive(Debug)]
pub struct Speech {
    pub tweet_id: String,
    pub text: Vec<u8>,
    pub name: Vec<u8>,
}

/// The mathematical value of a `Speech`.
#[verifier::ext_equal]
pub ghost struct SpeechV {
    pub tweet_id: Seq<char>,
    pub text: Seq<u8>,
    pub name: Seq<u8>,
}

impl View for Speech {
    type V = SpeechV;

    open spec fn view(&self) -> SpeechV {
        SpeechV { tweet_id: self.tweet_id@, text: self.text@, name: self.name@ }
    }
}

/// The views of a sequence of speeches.
pub open spec fn speeches(s: Seq<Speech>) -> Seq<SpeechV> {
    s.map_values(|x: Speech| x@)
}

/// The ids of a sequence of speech views.
pub open spec fn speech_ids(s: Seq<SpeechV>) -> Seq<Seq<char>> {
    s.map_values(|x: SpeechV| x.tweet_id)
}

/// Builds the synthesis job for a record under the given settings.
pub fn into(record: Record, addr: NetAddr, speaker: u64, speech_rate_milli: u64) -> (r: Playbook)
    ensures
        r.tweet_id@ == record.tweet_id@,
        r.text@ == record.text@,
        r.name@ == record.name@,
        r.addr == addr,
        r.speaker == speaker,
        r.speech_rate_milli == speech_rate_milli,
{
    Playbook {
        tweet_id: record.tweet_id,
        text: record.text,
        name: record.name,
        addr,
        speaker,
        speech_rate_milli,
    }
}

/// What `wana_kana::to_hiragana` returns for a text: hiragana reading of
/// the input.  The result depends on the input characters alone.
pub uninterp spec fn hiragana_of(s: Seq<char>) -> Seq<char>;

/// Relies on `wana_kana::ConvertJapanese::to_hiragana` for `&str`:
/// converts romaji and katakana in the input to hiragana, a function of
/// the input text alone.
#[verifier::external_body]
fn to_hiragana_text(s: &str) -> (r: String)
    ensures
        r@ == hiragana_of(s@),
{
    wana_kana::ConvertJapanese::to_hiragana(s)
}

/// The spoken form of an author name: its hiragana reading.
pub fn spoken_name(name: &str) -> (r: String)
    ensures
        r@ == hiragana_of(name@),
{
    to_hiragana_text(name)
}

/// The spoken form of a record body: retweet headers collapsed, URLs
/// replaced by a short phrase, then converted to hiragana.
pub fn spoken_text(text: &str) -> (r: String)
    ensures
        r@ == hiragana_of(crate::voicegen_filter::url_folded(
            crate::voicegen_filter::retweet_folded(text@),
        )),
{
    let t = replace_retweet(text);
    let t = replace_url(t.as_str());
    to_hiragana_text(t.as_str())
}

} // verus!
