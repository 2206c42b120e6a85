use vstd::prelude::*;

verus! {

/// A language a flashcard can be written in.
#[derive(Clone, Copy, Debug, PartialEq, Eq, Hash, Structural)]
pub enum Language {
    Pl,
    En,
    EnUk,
    EnUs,
}

/// One item on a flashcard.
#[derive(Clone, Debug, PartialEq, Eq)]
pub enum FlashCardItem {
    Title(String),
    Pronunciation { ipa: String, audio_url: Option<String> },
    Image(String),
    Example(String),
}

/// What a flashcard pack is about.
#[derive(Clone, Copy, Debug, PartialEq, Eq, Structural)]
pub enum FlashCardPackKind {
    Language,
    Other,
}

/// What a deck is about.
#[derive(Clone, Copy, Debug, PartialEq, Eq, Structural)]
pub enum DeckKind {
    Language,
    Other,
}

/// Items to add to and remove from a collection.
pub struct UpdatePatch<T> {
    pub add: Vec<T>,
    pub remove: Vec<T>,
}

} // verus!
