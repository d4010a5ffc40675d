use vstd::prelude::*;

verus! {

/// The classes the keyword model distinguishes, in the order of its outputs.
#[derive(Clone, Copy, Debug, PartialEq, Eq, Structural)]
pub enum DetectableWord {
    Six,
    Seven,
    Up,
    Down,
    Right,
    Left,
    On,
    Off,
    Wow,
    Happy,
    Unknown,
    Silence,
}

/// Number of classes, that is of model outputs that name a word.
pub const NUMBER_OF_DETECTABLE_WORDS: usize = 12;

/// The word at position `index` among the model's outputs, if there is one.
pub open spec fn word_at_index(index: nat) -> Option<DetectableWord> {
    if index == 0 {
        Some(DetectableWord::Six)
    } else if index == 1 {
        Some(DetectableWord::Seven)
    } else if index == 2 {
        Some(DetectableWord::Up)
    } else if index == 3 {
        Some(DetectableWord::Down)
    } else if index == 4 {
        Some(DetectableWord::Right)
    } else if index == 5 {
        Some(DetectableWord::Left)
    } else if index == 6 {
        Some(DetectableWord::On)
    } else if index == 7 {
        Some(DetectableWord::Off)
    } else if index == 8 {
        Some(DetectableWord::Wow)
    } else if index == 9 {
        Some(DetectableWord::Happy)
    } else if index == 10 {
        Some(DetectableWord::Unknown)
    } else if index == 11 {
        Some(DetectableWord::Silence)
    } else {
        None
    }
}

impl DetectableWord {
    /// Position of the word among the model's outputs.
    pub open spec fn index(self) -> nat {
        match self {
            DetectableWord::Six => 0,
            DetectableWord::Seven => 1,
            DetectableWord::Up => 2,
            DetectableWord::Down => 3,
            DetectableWord::Right => 4,
            DetectableWord::Left => 5,
            DetectableWord::On => 6,
            DetectableWord::Off => 7,
            DetectableWord::Wow => 8,
            DetectableWord::Happy => 9,
            DetectableWord::Unknown => 10,
            DetectableWord::Silence => 11,
        }
    }

    /// The word spelled out in lower case.
    pub open spec fn name(self) -> Seq<char> {
        match self {
            DetectableWord::Six => "six"@,
            DetectableWord::Seven => "seven"@,
            DetectableWord::Up => "up"@,
            DetectableWord::Down => "down"@,
            DetectableWord::Right => "right"@,
            DetectableWord::Left => "left"@,
            DetectableWord::On => "on"@,
            DetectableWord::Off => "off"@,
            DetectableWord::Wow => "wow"@,
            DetectableWord::Happy => "happy"@,
            DetectableWord::Unknown => "unknown"@,
            DetectableWord::Silence => "silence"@,
        }
    }

    /// A word is valid when it is one of the ten target words,
    /// neither the catch-all class nor silence.
    pub open spec fn spec_is_valid(self) -> bool {
        !(self is Unknown || self is Silence)
    }

    pub fn is_valid(&self) -> (valid: bool)
        ensures
            valid == self.spec_is_valid(),
    {
        match self {
            Self::Unknown => false,
            Self::Silence => false,
            _ => true,
        }
    }

    pub fn as_str(&self) -> (s: &str)
        ensures
            s@ == self.name(),
    {
        match self {
            Self::Six => "six",
            Self::Seven => "seven",
            Self::Up => "up",
            Self::Down => "down",
            Self::Right => "right",
            Self::Left => "left",
            Self::On => "on",
            Self::Off => "off",
            Self::Wow => "wow",
            Self::Happy => "happy",
            Self::Unknown => "unknown",
            Self::Silence => "silence",
        }
    }

    /// The word at position `index` among the model's outputs, if there is one.
    pub fn from_index(index: usize) -> (word: Option<DetectableWord>)
        ensures
            word == word_at_index(index as nat),
    {
        match index {
            0 => Some(Self::Six),
            1 => Some(Self::Seven),
            2 => Some(Self::Up),
            3 => Some(Self::Down),
            4 => Some(Self::Right),
            5 => Some(Self::Left),
            6 => Some(Self::On),
            7 => Some(Self::Off),
            8 => Some(Self::Wow),
            9 => Some(Self::Happy),
            10 => Some(Self::Unknown),
            11 => Some(Self::Silence),
            _ => None,
        }
    }
}

/// Every word sits at its own position among the model's outputs, and
/// exactly the positions below the number of words name a word.
pub proof fn lemma_word_at_index_round_trip(word: DetectableWord, index: nat)
    ensures
        word_at_index(word.index()) == Some(word),
        word_at_index(index) is Some <==> index < NUMBER_OF_DETECTABLE_WORDS,
        word_at_index(index) matches Some(w) ==> w.index() == index,
{
}

} // verus!
