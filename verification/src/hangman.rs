//! The word-guessing game: the word, and what the player has uncovered.

use vstd::prelude::*;
use vstd::string::*;
use vstd::utf8::*;
use crate::chance::random_below;
use crate::text::chars_of;

verus! {

/// The number of bytes that `text` takes in UTF-8.
pub open spec fn byte_len(text: Seq<char>) -> nat {
    encode_utf8(text).len()
}

/// What stands for a letter that is still hidden.
pub open spec fn blank() -> Seq<char> {
    "_"@
}

/// A text takes at least one byte for each of its characters.
pub proof fn lemma_byte_len_bounds_chars(text: Seq<char>)
    ensures
        text.len() <= byte_len(text),
    decreases text.len(),
{
    if text.len() > 0 {
        lemma_byte_len_bounds_chars(text.drop_first());
    }
}

/// A word to be guessed.
#[derive(Debug, Clone)]
pub struct Word {
    data: String,
}

impl View for Word {
    type V = Seq<char>;

    closed spec fn view(&self) -> Seq<char> {
        self.data@
    }
}

impl Word {
    /// The word spelled `data`.
    pub fn new(data: String) -> (word: Word)
        ensures
            word@ == data@,
    {
        Word { data }
    }

    /// The length of the word in bytes, as a 32-bit number: for a word of
    /// 2^31 bytes or more, the low 32 bits of its length.
    pub fn length(&self) -> (len: i32)
        ensures
            len == self.length_spec(),
            byte_len(self@) <= i32::MAX ==> len == byte_len(self@),
    {
        let bytes = self.data.as_str().as_bytes();
        #[verifier::truncate]
        (bytes.len() as i32)
    }

    /// The spelling of the word.
    pub fn get_data(self) -> (data: String)
        ensures
            data@ == self@,
    {
        self.data
    }

    /// The word as it is shown before anything is guessed: one space for
    /// each unit of its length.
    pub fn render(&self) -> (text: String)
        ensures
            text@ == Seq::new(
                if self.length_spec() > 0 {
                    self.length_spec() as nat
                } else {
                    0
                },
                |i: int| ' ',
            ),
    {
        let mut spaces = String::new();
        let len = self.length();
        let mut i: i32 = 0;
        proof {
            reveal_strlit(" ");
        }
        while i < len
            invariant
                0 <= i,
                i <= len || i == 0,
                len == self.length_spec(),
                spaces@.len() == i,
                forall|j: int| 0 <= j < spaces@.len() ==> spaces@[j] == ' ',
                " "@ == seq![' '],
            decreases len - i,
        {
            spaces.append(" ");
            i = i + 1;
        }
        assert(spaces@ =~= Seq::new(spaces@.len(), |i: int| ' '));
        spaces
    }

    /// What [`Word::length`] returns.
    pub open spec fn length_spec(&self) -> i32 {
        #[verifier::truncate]
        (byte_len(self@) as i32)
    }
}

/// The words among `lines` that take `word_size` bytes, in their order.
pub fn words_of_length(lines: Vec<String>, word_size: u8) -> (words: Vec<Word>)
    ensures
        words@.map_values(|w: Word| w@) == lines@.map_values(|l: String| l@).filter(
            |l: Seq<char>| byte_len(l) == word_size,
        ),
{
    let mut words: Vec<Word> = Vec::new();
    let ghost texts = lines@.map_values(|l: String| l@);
    let ghost wanted = |l: Seq<char>| byte_len(l) == word_size;
    proof {
        reveal(Seq::filter);
        assert(texts.take(0) =~= Seq::empty());
    }
    for line in it: lines
        invariant
            it.seq() == lines@,
            texts == lines@.map_values(|l: String| l@),
            wanted == |l: Seq<char>| byte_len(l) == word_size,
            words@.map_values(|w: Word| w@) == texts.take(it.index() as int).filter(wanted),
    {
        let ghost done = texts.take(it.index() as int);
        let ghost next = texts.take(it.index() + 1);
        proof {
            reveal(Seq::filter);
            assert(next.drop_last() =~= done);
            assert(next.last() == line@);
        }
        if line.as_str().as_bytes().len() == word_size as usize {
            let ghost before = words@.map_values(|w: Word| w@);
            words.push(Word::new(line));
            assert(words@.map_values(|w: Word| w@) =~= before.push(line@));
        }
    }
    assert(texts.take(lines@.len() as int) =~= texts);
    words
}

/// What a guess holds: the word, and for each unit of the word's length
/// either the letter uncovered there or a blank.
pub struct GuessView {
    pub word: Seq<char>,
    pub spaces: Seq<Seq<char>>,
}

impl GuessView {
    /// `letter` is the single character at position `i` of the word.
    pub open spec fn hits(self, letter: Seq<char>, i: int) -> bool {
        0 <= i < self.word.len() && letter == seq![self.word[i]]
    }

    /// The guess after `letter` was tried: it stands wherever the word has
    /// it, and every other place is as before.
    pub open spec fn filled(self, letter: Seq<char>) -> GuessView {
        GuessView {
            word: self.word,
            spaces: Seq::new(
                self.spaces.len(),
                |i: int|
                    if self.hits(letter, i) {
                        letter
                    } else {
                        self.spaces[i]
                    },
            ),
        }
    }

    /// No place holds a blank.
    pub open spec fn completed(self) -> bool {
        forall|i: int| 0 <= i < self.spaces.len() ==> self.spaces[i] != blank()
    }

    /// There is a place for every character of the word.
    pub open spec fn wf(self) -> bool {
        self.word.len() <= self.spaces.len()
    }
}

/// `parts` one after the other, with a space between each two.
pub open spec fn spaced(parts: Seq<Seq<char>>) -> Seq<char>
    decreases parts.len(),
{
    if parts.len() == 0 {
        Seq::empty()
    } else if parts.len() == 1 {
        parts[0]
    } else {
        spaced(parts.drop_last()) + seq![' '] + parts.last()
    }
}

/// The state of a game: the word and what has been uncovered of it.
pub struct Guess {
    word: Word,
    spaces: Vec<String>,
}

impl View for Guess {
    type V = GuessView;

    closed spec fn view(&self) -> GuessView {
        GuessView { word: self.word@, spaces: self.spaces@.map_values(|s: String| s@) }
    }
}

impl Guess {
    /// There is a place for every character of the word.
    pub open spec fn wf(&self) -> bool {
        self@.wf()
    }

    /// Starts a game on `word`, with a blank for each byte of the word.
    /// The word's length must fit in 32 bits with a sign.
    pub fn new(word: Word) -> (guess: Guess)
        requires
            byte_len(word@) <= i32::MAX,
        ensures
            guess.wf(),
            guess@.word == word@,
            guess@.spaces == Seq::new(byte_len(word@), |i: int| blank()),
    {
        let mut spaces: Vec<String> = Vec::new();
        let len = word.length();
        let mut i: i32 = 0;
        while i < len
            invariant
                0 <= i <= len,
                spaces@.len() == i,
                forall|j: int| 0 <= j < i ==> spaces@[j]@ == blank(),
            decreases len - i,
        {
            spaces.push(String::from_str("_"));
            i = i + 1;
        }
        let guess = Guess { word, spaces };
        proof {
            lemma_byte_len_bounds_chars(word@);
            assert(guess@.spaces =~= Seq::new(byte_len(word@), |i: int| blank()));
        }
        guess
    }

    /// Tries `letter`: uncovers it wherever the word has it, and says
    /// whether it has it anywhere. Only a single character can be found.
    pub fn fill_guess(&mut self, letter: String) -> (found: bool)
        requires
            old(self).wf(),
        ensures
            final(self).wf(),
            final(self)@ == old(self)@.filled(letter@),
            found == exists|i: int| old(self)@.hits(letter@, i),
    {
        let mut found = false;
        let word = chars_of(self.word.data.as_str());
        let tried = chars_of(letter.as_str());
        if tried.len() != 1 {
            proof {
                assert(self@.spaces =~= old(self)@.filled(letter@).spaces);
            }
            return false;
        }
        let character = tried[0];
        assert(letter@ =~= seq![character]);
        let mut index: usize = 0;
        while index < word.len()
            invariant
                index <= word@.len(),
                word@ == old(self)@.word,
                self.word == old(self).word,
                letter@ == seq![character],
                old(self).wf(),
                self.spaces@.len() == old(self).spaces@.len(),
                forall|i: int|
                    0 <= i < self.spaces@.len() ==> (#[trigger] self.spaces@[i])@ == if i < index
                        && old(self)@.hits(letter@, i) {
                        letter@
                    } else {
                        old(self).spaces@[i]@
                    },
                found == exists|i: int| 0 <= i < index && old(self)@.hits(letter@, i),
            decreases word@.len() - index,
        {
            if word[index] == character {
                assert(old(self)@.hits(letter@, index as int));
                found = true;
                self.spaces[index] = letter.clone();
            } else {
                assert(seq![word@[index as int]][0] != letter@[0]);
            }
            index = index + 1;
        }
        proof {
            assert(self@.spaces =~= old(self)@.filled(letter@).spaces);
        }
        found
    }

    /// The guess as it is shown: its places, with a space between each two.
    pub fn render(&self) -> (text: String)
        ensures
            text@ == spaced(self@.spaces),
    {
        let mut text = String::new();
        let mut i: usize = 0;
        proof {
            reveal_strlit(" ");
            assert(self@.spaces.take(0) =~= Seq::empty());
        }
        while i < self.spaces.len()
            invariant
                i <= self.spaces@.len(),
                " "@ == seq![' '],
                text@ == spaced(self@.spaces.take(i as int)),
            decreases self.spaces@.len() - i,
        {
            proof {
                let done = self@.spaces.take(i + 1);
                assert(done.drop_last() =~= self@.spaces.take(i as int));
                assert(done.last() == self.spaces@[i as int]@);
            }
            if i > 0 {
                text.append(" ");
            }
            text.append(self.spaces[i].as_str());
            i = i + 1;
        }
        assert(self@.spaces.take(i as int) =~= self@.spaces);
        text
    }

    /// Decides whether every place has been uncovered.
    pub fn completed(&self) -> (done: bool)
        ensures
            done == self@.completed(),
    {
        let hidden = String::from_str("_");
        let mut i: usize = 0;
        while i < self.spaces.len()
            invariant
                i <= self.spaces@.len(),
                hidden@ == blank(),
                forall|j: int| 0 <= j < i ==> self@.spaces[j] != blank(),
            decreases self.spaces@.len() - i,
        {
            if self.spaces[i] == hidden {
                assert(self@.spaces[i as int] == blank());
                return false;
            }
            i = i + 1;
        }
        true
    }
}

/// The smallest number of bytes of a word that a player may ask for.
pub const MIN_WORD_SIZE: u8 = 5;

/// The largest number of bytes of a word that a player may ask for.
pub const MAX_WORD_SIZE: u8 = 10;

/// The smallest number of wrong guesses that a player may ask for.
pub const MIN_GUESSES: u8 = 5;

/// Decides whether a player may ask for words of `word_size` bytes.
pub fn valid_word_size(word_size: u8) -> (valid: bool)
    ensures
        valid == (MIN_WORD_SIZE <= word_size <= MAX_WORD_SIZE),
{
    MIN_WORD_SIZE <= word_size && word_size <= MAX_WORD_SIZE
}

/// Decides whether a player may ask for `total_guesses` wrong guesses.
pub fn valid_total_guesses(total_guesses: u8) -> (valid: bool)
    ensures
        valid == (total_guesses >= MIN_GUESSES),
{
    total_guesses >= MIN_GUESSES
}

/// Takes one word out of `words`, chosen at random. The others stay in
/// their order.
pub fn pick_word(words: &mut Vec<Word>) -> (word: Word)
    requires
        old(words)@.len() > 0,
    ensures
        exists|i: int|
            0 <= i < old(words)@.len() && word == #[trigger] old(words)@[i] && final(words)@ == old(
                words,
            )@.remove(i),
{
    let random_index = random_below(words.len());
    words.remove(random_index)
}

/// How a game stands before the next guess.
#[derive(Debug, Clone, Copy, PartialEq, Eq, Structural)]
pub enum Status {
    /// Every place is uncovered.
    Won,
    /// No wrong guess is left.
    Lost,
    /// The player may guess.
    Open,
}

/// What became of a guess.
#[derive(Debug, Clone, Copy, PartialEq, Eq, Structural)]
pub enum Verdict {
    /// The player did not enter exactly one letter. Counts as a wrong guess.
    NotOneLetter,
    /// The player has tried this before. Counts as nothing.
    Repeated,
    /// The word has the letter.
    Hit,
    /// The word does not have the letter. Counts as a wrong guess.
    Miss,
}

/// What a game holds: the guess, what the player has entered so far, the
/// number of wrong guesses made and the number allowed.
pub struct GameView {
    pub guess: GuessView,
    pub tried: Seq<Seq<char>>,
    pub misses: u8,
    pub allowed: u8,
}

impl GameView {
    /// There is a place for every character of the word, nothing was
    /// recorded twice, and no more wrong guesses were made than allowed.
    pub open spec fn wf(self) -> bool {
        &&& self.guess.wf()
        &&& self.tried.no_duplicates()
        &&& self.misses <= self.allowed
    }

    /// How the game stands.
    pub open spec fn status(self) -> Status {
        if self.guess.completed() {
            Status::Won
        } else if self.allowed == self.misses {
            Status::Lost
        } else {
            Status::Open
        }
    }

    /// What becomes of `letter`, entered in a line of `read` bytes with its
    /// line feed; `read` is `None` where reading the line failed.
    pub open spec fn verdict(self, read: Option<usize>, letter: Seq<char>) -> Verdict {
        if read matches Some(size) && size != 2 {
            Verdict::NotOneLetter
        } else if self.tried.contains(letter) {
            Verdict::Repeated
        } else if exists|i: int| self.guess.hits(letter, i) {
            Verdict::Hit
        } else {
            Verdict::Miss
        }
    }

    /// The game after `letter` was entered.
    pub open spec fn played(self, read: Option<usize>, letter: Seq<char>) -> GameView {
        match self.verdict(read, letter) {
            Verdict::NotOneLetter => GameView { misses: (self.misses + 1) as u8, ..self },
            Verdict::Repeated => self,
            Verdict::Hit => GameView {
                guess: self.guess.filled(letter),
                tried: self.tried.push(letter),
                ..self
            },
            Verdict::Miss => GameView {
                guess: self.guess.filled(letter),
                tried: self.tried.push(letter),
                misses: (self.misses + 1) as u8,
                ..self
            },
        }
    }
}

/// A game in progress.
pub struct Game {
    guess: Guess,
    tried: Vec<String>,
    misses: u8,
    allowed: u8,
}

impl View for Game {
    type V = GameView;

    closed spec fn view(&self) -> GameView {
        GameView {
            guess: self.guess@,
            tried: self.tried@.map_values(|s: String| s@),
            misses: self.misses,
            allowed: self.allowed,
        }
    }
}

impl Game {
    /// The game's invariant holds.
    pub open spec fn wf(&self) -> bool {
        self@.wf()
    }

    /// Starts a game on `word` in which `allowed` wrong guesses may be
    /// made. The word's length must fit in 32 bits with a sign.
    pub fn new(word: Word, allowed: u8) -> (game: Game)
        requires
            byte_len(word@) <= i32::MAX,
        ensures
            game.wf(),
            game@.guess.word == word@,
            game@.guess.spaces == Seq::new(byte_len(word@), |i: int| blank()),
            game@.tried == Seq::<Seq<char>>::empty(),
            game@.misses == 0,
            game@.allowed == allowed,
    {
        let game = Game { guess: Guess::new(word), tried: Vec::new(), misses: 0, allowed };
        assert(game@.tried =~= Seq::empty());
        game
    }

    /// What has been uncovered of the word.
    pub fn guess(&self) -> (guess: &Guess)
        ensures
            guess@ == self@.guess,
    {
        &self.guess
    }

    /// The number of wrong guesses made.
    pub fn misses(&self) -> (misses: u8)
        ensures
            misses == self@.misses,
    {
        self.misses
    }

    /// The number of wrong guesses allowed.
    pub fn allowed(&self) -> (allowed: u8)
        ensures
            allowed == self@.allowed,
    {
        self.allowed
    }

    /// Decides how the game stands: won before lost, lost before open.
    pub fn status(&self) -> (status: Status)
        ensures
            status == self@.status(),
    {
        if self.guess.completed() {
            Status::Won
        } else if self.allowed == self.misses {
            Status::Lost
        } else {
            Status::Open
        }
    }

    /// Decides whether the player has entered `letter` before.
    pub fn has_tried(&self, letter: &String) -> (tried: bool)
        ensures
            tried == self@.tried.contains(letter@),
    {
        let mut i: usize = 0;
        while i < self.tried.len()
            invariant
                i <= self.tried@.len(),
                forall|j: int| 0 <= j < i ==> self@.tried[j] != letter@,
            decreases self.tried@.len() - i,
        {
            if self.tried[i] == *letter {
                assert(self@.tried[i as int] == letter@);
                return true;
            }
            i = i + 1;
        }
        false
    }

    /// Plays one guess. `read` is the number of bytes of the line that the
    /// player entered, or `None` where reading it failed; `letter` is that
    /// line without the white space around it. A wrong guess must be left.
    pub fn play(&mut self, read: Option<usize>, letter: String) -> (verdict: Verdict)
        requires
            old(self).wf(),
            old(self)@.misses < old(self)@.allowed,
        ensures
            final(self).wf(),
            verdict == old(self)@.verdict(read, letter@),
            final(self)@ == old(self)@.played(read, letter@),
    {
        if let Some(size) = read {
            if size != 2 {
                self.misses = self.misses + 1;
                return Verdict::NotOneLetter;
            }
        }
        if self.has_tried(&letter) {
            return Verdict::Repeated;
        }
        let ghost before = self@.tried;
        self.tried.push(letter.clone());
        proof {
            assert(self@.tried =~= before.push(letter@));
            assert forall|i: int, j: int|
                0 <= i < self@.tried.len() && 0 <= j < self@.tried.len() && i != j implies self@.tried[i]
                != self@.tried[j] by {
                if i < before.len() {
                    assert(before.contains(before[i]));
                }
                if j < before.len() {
                    assert(before.contains(before[j]));
                }
            }
        }
        if !self.guess.fill_guess(letter) {
            self.misses = self.misses + 1;
            Verdict::Miss
        } else {
            Verdict::Hit
        }
    }
}

} // verus!
