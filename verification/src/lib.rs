//! Client-side logic of a collaborative audio labelling tool: transcription of
//! Chinese text to toneless pinyin or jyutping and of kana to romaji, the
//! room protocol's messages, URLs and reply handling, and the state of the
//! file browser window.
use vstd::prelude::*;

pub mod browser;
pub mod kana;
pub mod net;
pub mod text;
pub mod transcribe;

verus! {

} // verus!
