use vstd::prelude::*;

verus! {

/// Why a tooltip, or one field of it, could not be read.
#[derive(Debug)]
pub enum ParseError {
    /// The text ran out where a line was expected.
    EmptyInput,
    /// The text ran out where the line holding the given key was expected.
    EmptyKeyedInput(String),
    /// A section divider was expected; this line stood there instead.
    MalformedDivider(String),
    /// The line holding the given key was not where it was expected.
    MissingKey(String),
    /// The value of the given key is not a number.
    MalformedNumber(String, String),
    /// This line is not a `Stack Size: <current>/<max>` line.
    MalformedStackSize(String),
    /// This map tier value does not start with a digit.
    MalformedTier(String),
    /// This value is not of the form `+<digits>% (augmented)`.
    MalformedPercentageRoll(String),
    /// This rarity name is none of the known ones.
    UnknownRarity(String),
    /// The first line does not start with `Rarity: `.
    MissingRarityPrefix,
    /// The text ended before the divider that closes a list of affixes.
    UnterminatedAffixList,
    /// The closing description block is empty.
    EmptyDescription,
    /// A divination card lists no reward.
    MissingReward,
    /// Items of this kind cannot be read yet.
    UnsupportedItemKind(String),
}

/// The model of a `ParseError`: the same cases, with the text they carry as characters.
pub enum Failure {
    EmptyInput,
    EmptyKeyedInput(Seq<char>),
    MalformedDivider(Seq<char>),
    MissingKey(Seq<char>),
    MalformedNumber(Seq<char>, Seq<char>),
    MalformedStackSize(Seq<char>),
    MalformedTier(Seq<char>),
    MalformedPercentageRoll(Seq<char>),
    UnknownRarity(Seq<char>),
    MissingRarityPrefix,
    UnterminatedAffixList,
    EmptyDescription,
    MissingReward,
    UnsupportedItemKind(Seq<char>),
}

impl View for ParseError {
    type V = Failure;

    open spec fn view(&self) -> Failure {
        match self {
            ParseError::EmptyInput => Failure::EmptyInput,
            ParseError::EmptyKeyedInput(k) => Failure::EmptyKeyedInput(k@),
            ParseError::MalformedDivider(l) => Failure::MalformedDivider(l@),
            ParseError::MissingKey(k) => Failure::MissingKey(k@),
            ParseError::MalformedNumber(k, v) => Failure::MalformedNumber(k@, v@),
            ParseError::MalformedStackSize(l) => Failure::MalformedStackSize(l@),
            ParseError::MalformedTier(v) => Failure::MalformedTier(v@),
            ParseError::MalformedPercentageRoll(v) => Failure::MalformedPercentageRoll(v@),
            ParseError::UnknownRarity(n) => Failure::UnknownRarity(n@),
            ParseError::MissingRarityPrefix => Failure::MissingRarityPrefix,
            ParseError::UnterminatedAffixList => Failure::UnterminatedAffixList,
            ParseError::EmptyDescription => Failure::EmptyDescription,
            ParseError::MissingReward => Failure::MissingReward,
            ParseError::UnsupportedItemKind(k) => Failure::UnsupportedItemKind(k@),
        }
    }
}

/// The model of what a parsing step returned: the deep view of its value, or the model of its error.
pub open spec fn outcome<T: DeepView>(r: Result<T, ParseError>) -> Result<T::V, Failure> {
    match r {
        Ok(v) => Ok(v.deep_view()),
        Err(e) => Err(e@),
    }
}

} // verus!
