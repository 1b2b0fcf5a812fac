//! The composition state machine: owns the in-progress code, the resolved
//! candidate list, the page cursor and an optional pending confirmation, and
//! is the sole mutator of that state.

use vstd::prelude::*;
use crate::dictionary::Dictionary;
use crate::dictionary::DictModel;
use crate::dictionary::lookup_m;
use crate::dictionary::has_prefix_m;
use crate::dictionary::fold_char;
use crate::dictionary::fold_char_exec;

verus! {

/// The code buffer never grows past five characters.
pub const MAX_CODE_LEN: usize = 5;

/// The mathematical shape of the composition state.
pub struct CompModel {
    pub code: Seq<char>,
    pub candidates: Seq<Seq<char>>,
    pub index: int,
    pub per_page: int,
    pub pending: Option<Seq<char>>,
}

/// Everything emptied; the page size is kept.
pub open spec fn clear_m(s: CompModel) -> CompModel {
    CompModel {
        code: Seq::empty(),
        candidates: Seq::empty(),
        index: 0,
        per_page: s.per_page,
        pending: None,
    }
}

/// One character appended if the code is short enough, which also drops any
/// pending confirmation; a full code is left untouched.
pub open spec fn append_code_m(s: CompModel, ch: char) -> CompModel {
    if s.code.len() < MAX_CODE_LEN {
        CompModel { code: s.code.push(ch), pending: None, ..s }
    } else {
        s
    }
}

/// The last code character removed, if there is one.
pub open spec fn delete_last_m(s: CompModel) -> CompModel {
    if s.code.len() > 0 {
        CompModel { code: s.code.drop_last(), ..s }
    } else {
        s
    }
}

/// Candidates re-resolved from the current code; the page cursor restarts.
pub open spec fn resolve_m(d: DictModel, s: CompModel) -> CompModel {
    if s.code.len() == 0 {
        CompModel { candidates: Seq::empty(), index: 0, ..s }
    } else {
        match lookup_m(d, s.code) {
            Some(v) => CompModel { candidates: v, index: 0, ..s },
            None => CompModel { candidates: Seq::empty(), index: 0, ..s },
        }
    }
}

/// The candidates visible on the current page: at most `per_page` of them,
/// starting at the page cursor.
pub open spec fn page_window_m(s: CompModel) -> Seq<Seq<char>> {
    if s.index >= s.candidates.len() || s.index < 0 {
        Seq::empty()
    } else if s.index + s.per_page <= s.candidates.len() {
        s.candidates.subrange(s.index, s.index + s.per_page)
    } else {
        s.candidates.subrange(s.index, s.candidates.len() as int)
    }
}

/// The candidate in slot `i` of the current page, if that slot is occupied.
pub open spec fn select_candidate_m(s: CompModel, i: int) -> Option<Seq<char>> {
    if 0 <= i < page_window_m(s).len() {
        Some(page_window_m(s)[i])
    } else {
        None
    }
}

/// Whether a further page of candidates exists.
pub open spec fn has_next_page_m(s: CompModel) -> bool {
    s.index + s.per_page < s.candidates.len()
}

/// Whether an earlier page of candidates exists.
pub open spec fn has_prev_page_m(s: CompModel) -> bool {
    s.index > 0
}

/// The page cursor moved one page forward when a further page exists.
pub open spec fn next_page_m(s: CompModel) -> CompModel {
    if has_next_page_m(s) {
        CompModel { index: s.index + s.per_page, ..s }
    } else {
        s
    }
}

/// The page cursor moved one page back, clamped at the start.
pub open spec fn prev_page_m(s: CompModel) -> CompModel {
    if has_prev_page_m(s) {
        CompModel { index: if s.index >= s.per_page { s.index - s.per_page } else { 0 }, ..s }
    } else {
        s
    }
}

/// An ASCII letter, either case.
pub open spec fn is_ascii_letter(c: char) -> bool {
    ('a' <= c && c <= 'z') || ('A' <= c && c <= 'Z')
}

/// The candidate slot a shortcut letter picks, for the five letters that
/// double as quick-pick shortcuts. A slot `n` needs at least `n + 1`
/// candidates to be picked.
pub open spec fn shortcut_slot(ch: char) -> Option<int> {
    if ch == 'v' {
        Some(1)
    } else if ch == 'r' {
        Some(2)
    } else if ch == 's' {
        Some(3)
    } else if ch == 'f' {
        Some(4)
    } else if ch == 'w' {
        Some(5)
    } else {
        None
    }
}

/// A literal append followed by re-resolving the candidates.
pub open spec fn literal_m(d: DictModel, s: CompModel, ch: char) -> CompModel {
    resolve_m(d, append_code_m(s, ch))
}

/// The shortcut fires only when the extended code could not grow into a
/// longer key: either it already has the full five characters, or no key
/// of the table strictly extends it.
pub open spec fn shortcut_triggers(d: DictModel, c2: Seq<char>) -> bool {
    c2.len() == MAX_CODE_LEN || (c2.len() < MAX_CODE_LEN && !has_prefix_m(d, c2))
}

/// One letter of input. A non-letter is refused. A shortcut letter first
/// tries the literal reading: when the extended code is a key of the table,
/// or the code is empty, or the current code resolves to too few candidates,
/// or a longer key could still be typed, the letter is appended literally.
/// Otherwise the slot's candidate becomes the pending confirmation and the
/// code is left untouched.
pub open spec fn code_input_m(d: DictModel, s: CompModel, ch: char) -> (
    CompModel,
    bool,
    Option<Seq<char>>,
) {
    if !is_ascii_letter(ch) {
        (s, false, None)
    } else {
        let c = fold_char(ch);
        match shortcut_slot(c) {
            Some(slot) => {
                let c2 = s.code.push(c);
                if lookup_m(d, c2) is None && s.code.len() > 0 {
                    match lookup_m(d, s.code) {
                        Some(cands) => {
                            if cands.len() > slot && shortcut_triggers(d, c2) {
                                (
                                    CompModel { pending: Some(cands[slot]), ..s },
                                    true,
                                    Some(cands[slot]),
                                )
                            } else {
                                (literal_m(d, s, c), true, None)
                            }
                        },
                        None => (literal_m(d, s, c), true, None),
                    }
                } else {
                    (literal_m(d, s, c), true, None)
                }
            },
            None => (literal_m(d, s, c), true, None),
        }
    }
}

/// One symbol of input. With a non-empty code, a key made of the code plus
/// the symbol resolves to a pending confirmation, the code untouched; a miss
/// changes nothing. With an empty code the symbol is first appended, so that
/// multi-symbol keys can be composed; a miss reverts the append.
pub open spec fn symbol_input_m(d: DictModel, s: CompModel, sym: char) -> (
    CompModel,
    bool,
    Option<Seq<char>>,
) {
    if s.code.len() > 0 {
        match lookup_m(d, s.code.push(sym)) {
            Some(cands) => {
                if cands.len() > 0 {
                    (CompModel { pending: Some(cands[0]), ..s }, true, Some(cands[0]))
                } else {
                    (s, false, None)
                }
            },
            None => (s, false, None),
        }
    } else {
        let s1 = append_code_m(s, sym);
        match lookup_m(d, s1.code) {
            Some(cands) => {
                if cands.len() > 0 {
                    (CompModel { pending: Some(cands[0]), ..s1 }, true, Some(cands[0]))
                } else {
                    (CompModel { pending: None, ..s }, false, None)
                }
            },
            None => (CompModel { pending: None, ..s }, false, None),
        }
    }
}

/// Digit selection: digits one to nine address the first nine slots of the
/// current page, zero the tenth. An occupied slot commits its candidate and
/// resets everything; an empty one changes nothing.
pub open spec fn number_selection_m(s: CompModel, num: int) -> (CompModel, Option<Seq<char>>) {
    if num > 9 || num < 0 {
        (s, None)
    } else {
        let slot = if num == 0 {
            9
        } else {
            num - 1
        };
        match select_candidate_m(s, slot) {
            Some(text) => (clear_m(s), Some(text)),
            None => (s, None),
        }
    }
}

/// Backspace: the last code character removed and the candidates
/// re-resolved; with an empty code nothing happens and that is reported.
pub open spec fn backspace_m(d: DictModel, s: CompModel) -> (CompModel, bool) {
    if s.code.len() == 0 {
        (s, false)
    } else {
        (resolve_m(d, delete_last_m(s)), true)
    }
}

/// Confirmation: a pending confirmation is committed first; otherwise the
/// head of the candidate list; otherwise nothing. A commit resets everything.
pub open spec fn space_m(s: CompModel) -> (CompModel, Option<Seq<char>>) {
    match s.pending {
        Some(p) => (clear_m(s), Some(p)),
        None => {
            if s.candidates.len() > 0 {
                (clear_m(s), Some(s.candidates[0]))
            } else {
                (s, None)
            }
        },
    }
}

/// The raw peek: the code itself when non-empty, with no side effect.
pub open spec fn enter_peek_m(s: CompModel) -> Option<Seq<char>> {
    if s.code.len() > 0 {
        Some(s.code)
    } else {
        None
    }
}

/// A sequence of literal appends, left to right.
pub open spec fn append_literals_m(d: DictModel, s: CompModel, chars: Seq<char>) -> CompModel
    decreases chars.len(),
{
    if chars.len() == 0 {
        s
    } else {
        append_literals_m(d, literal_m(d, s, chars[0]), chars.drop_first())
    }
}

/// Law: a code of at most five characters stays at most five characters
/// long under any sequence of literal appends.
pub proof fn lemma_code_bound_any_sequence(d: DictModel, s: CompModel, chars: Seq<char>)
    requires
        s.code.len() <= MAX_CODE_LEN,
    ensures
        append_literals_m(d, s, chars).code.len() <= MAX_CODE_LEN,
    decreases chars.len(),
{
    if chars.len() == 0 {
    } else {
        lemma_code_bound_any_sequence(d, literal_m(d, s, chars[0]), chars.drop_first());
    }
}

/// Law: appending a sixth literal character leaves a five-character code
/// unchanged.
pub proof fn lemma_append_at_bound_keeps_code(d: DictModel, s: CompModel, ch: char)
    requires
        s.code.len() == MAX_CODE_LEN,
    ensures
        literal_m(d, s, ch).code == s.code,
{
}

/// The composition state. `candidates_per_page` is the fixed page size.
#[derive(Debug, Clone, PartialEq)]
pub struct InputMethodState {
    pub current_code: Vec<char>,
    pub candidates: Vec<String>,
    pub candidate_index: usize,
    pub candidates_per_page: usize,
    pub complement_selected: Option<String>,
}

impl InputMethodState {
    /// The state, seen mathematically.
    pub open spec fn model(self) -> CompModel {
        CompModel {
            code: self.current_code@,
            candidates: self.candidates.deep_view(),
            index: self.candidate_index as int,
            per_page: self.candidates_per_page as int,
            pending: self.complement_selected.deep_view(),
        }
    }

    /// A fresh state: everything empty, six candidates to a page.
    pub fn new() -> (s: InputMethodState)
        ensures
            s.model() == (CompModel {
                code: Seq::<char>::empty(),
                candidates: Seq::<Seq<char>>::empty(),
                index: 0,
                per_page: 6,
                pending: None,
            }),
    {
        let s = InputMethodState {
            current_code: Vec::new(),
            candidates: Vec::new(),
            candidate_index: 0,
            candidates_per_page: 6,
            complement_selected: None,
        };
        proof {
            assert(s.candidates.deep_view() =~= Seq::<Seq<char>>::empty());
        }
        s
    }

    /// Empty the code, the candidates, the page cursor and any pending
    /// confirmation, whatever the prior state was.
    pub fn clear(&mut self)
        ensures
            final(self).model() == clear_m(old(self).model()),
    {
        self.current_code.clear();
        self.candidates.clear();
        self.candidate_index = 0;
        self.complement_selected = None;
        proof {
            assert(self.candidates.deep_view() =~= Seq::<Seq<char>>::empty());
        }
    }

    /// Append one code character while the code is shorter than five
    /// characters; appending also drops any pending confirmation. On a full
    /// code this is a no-op, so the code never grows past five characters.
    pub fn append_code(&mut self, ch: char)
        ensures
            final(self).model() == append_code_m(old(self).model(), ch),
            old(self).model().code.len() <= MAX_CODE_LEN ==> final(self).model().code.len()
                <= MAX_CODE_LEN,
    {
        if self.current_code.len() < MAX_CODE_LEN {
            self.current_code.push(ch);
            self.complement_selected = None;
        }
    }

    /// Remove the last code character if the code is non-empty.
    pub fn delete_last_code(&mut self)
        ensures
            final(self).model() == delete_last_m(old(self).model()),
    {
        if self.current_code.len() > 0 {
            self.current_code.pop();
            proof {
                assert(self.current_code@ =~= old(self).current_code@.drop_last());
            }
        }
    }

    /// Re-resolve the candidate list from the current code against the
    /// table, resetting the page cursor.
    pub fn lookup_candidates(&mut self, dictionary: &Dictionary)
        ensures
            final(self).model() == resolve_m(dictionary.table(), old(self).model()),
    {
        if self.current_code.len() == 0 {
            self.candidates.clear();
            self.candidate_index = 0;
            proof {
                assert(self.candidates.deep_view() =~= Seq::<Seq<char>>::empty());
            }
            return ;
        }
        match dictionary.lookup(&self.current_code) {
            Some(chars) => {
                self.candidates = crate::dictionary::clone_strings(chars);
                self.candidate_index = 0;
            },
            None => {
                self.candidates.clear();
                self.candidate_index = 0;
                proof {
                    assert(self.candidates.deep_view() =~= Seq::<Seq<char>>::empty());
                }
            },
        }
    }

    /// The candidates of the current page, in order.
    pub fn get_current_page_candidates(&self) -> (page: Vec<String>)
        ensures
            page.deep_view() == page_window_m(self.model()),
    {
        let len = self.candidates.len();
        if self.candidate_index >= len {
            let empty: Vec<String> = Vec::new();
            proof {
                assert(empty.deep_view() =~= Seq::<Seq<char>>::empty());
            }
            return empty;
        }
        let start = self.candidate_index;
        let room = len - start;
        let count = if self.candidates_per_page <= room {
            self.candidates_per_page
        } else {
            room
        };
        let mut page: Vec<String> = Vec::new();
        let mut i: usize = 0;
        while i < count
            invariant
                len == self.candidates@.len(),
                start + count <= len,
                i <= count,
                page.deep_view() =~= self.candidates.deep_view().subrange(
                    start as int,
                    start as int + i as int,
                ),
            decreases count - i,
        {
            let ghost before = page.deep_view();
            page.push(self.candidates[start + i].clone());
            proof {
                assert(page.deep_view() =~= before.push(
                    self.candidates.deep_view()[start as int + i as int],
                ));
                assert(page.deep_view() =~= self.candidates.deep_view().subrange(
                    start as int,
                    start as int + i as int + 1,
                ));
            }
            i += 1;
        }
        page
    }

    /// Whether a further page of candidates exists.
    pub fn has_next_page(&self) -> (r: bool)
        ensures
            r == has_next_page_m(self.model()),
    {
        if self.candidate_index >= self.candidates.len() {
            false
        } else {
            self.candidates_per_page < self.candidates.len() - self.candidate_index
        }
    }

    /// Whether an earlier page of candidates exists.
    pub fn has_prev_page(&self) -> (r: bool)
        ensures
            r == has_prev_page_m(self.model()),
    {
        self.candidate_index > 0
    }

    /// Move the page cursor one page forward when a further page exists.
    pub fn next_page(&mut self)
        ensures
            final(self).model() == next_page_m(old(self).model()),
    {
        if self.has_next_page() {
            let len: usize = self.candidates.len();
            proof {
                assert(self.candidate_index + self.candidates_per_page < len);
            }
            self.candidate_index = self.candidate_index + self.candidates_per_page;
        }
    }

    /// Move the page cursor one page back, clamped at the start.
    pub fn prev_page(&mut self)
        ensures
            final(self).model() == prev_page_m(old(self).model()),
    {
        if self.has_prev_page() {
            self.candidate_index = if self.candidate_index >= self.candidates_per_page {
                self.candidate_index - self.candidates_per_page
            } else {
                0
            };
        }
    }

    /// The candidate in slot `index` of the current page, if occupied.
    pub fn select_candidate(&self, index: usize) -> (r: Option<String>)
        ensures
            r.deep_view() == select_candidate_m(self.model(), index as int),
    {
        let page = self.get_current_page_candidates();
        if index < page.len() {
            Some(page[index].clone())
        } else {
            None
        }
    }
}

impl Default for InputMethodState {
    /// The same state `new` gives: everything empty, six candidates a page.
    fn default() -> (s: Self)
        ensures
            s.model() == (CompModel {
                code: Seq::<char>::empty(),
                candidates: Seq::<Seq<char>>::empty(),
                index: 0,
                per_page: 6,
                pending: None,
            }),
    {
        InputMethodState::new()
    }
}

/// Relies on String implementing FromIterator over char: collecting
/// characters yields the string of exactly those characters.
#[verifier::external_body]
fn string_from_chars(v: &Vec<char>) -> (r: String)
    ensures
        r@ == v@,
{
    v.iter().collect()
}

/// The input processor: the composition state together with the code table
/// it resolves against.
pub struct InputMethodProcessor {
    pub state: InputMethodState,
    pub dictionary: Dictionary,
}

impl InputMethodProcessor {
    /// The composition state, seen mathematically.
    pub open spec fn comp(self) -> CompModel {
        self.state.model()
    }

    /// The table, seen mathematically.
    pub open spec fn dict(self) -> DictModel {
        self.dictionary.table()
    }

    /// A fresh processor over the given table.
    pub fn new(dictionary: Dictionary) -> (p: InputMethodProcessor)
        ensures
            p.comp() == (CompModel {
                code: Seq::<char>::empty(),
                candidates: Seq::<Seq<char>>::empty(),
                index: 0,
                per_page: 6,
                pending: None,
            }),
            p.dict() == dictionary.table(),
    {
        InputMethodProcessor { state: InputMethodState::new(), dictionary }
    }

    /// One letter of input, handled as `code_input_m` says: a literal code
    /// character, or one of the five shortcut letters picking a candidate.
    /// Returns whether the key was handled and any candidate now pending.
    pub fn handle_code_input(&mut self, ch: char) -> (r: (bool, Option<String>))
        ensures
            ({
                let (m, ok, out) = code_input_m(old(self).dict(), old(self).comp(), ch);
                &&& final(self).comp() == m
                &&& final(self).dict() == old(self).dict()
                &&& r.0 == ok
                &&& r.1.deep_view() == out
            }),
    {
        let is_lower = 'a' <= ch && ch <= 'z';
        let is_upper = 'A' <= ch && ch <= 'Z';
        if !is_lower && !is_upper {
            return (false, None);
        }
        let c = fold_char_exec(ch);
        if c == 'v' || c == 'r' || c == 's' || c == 'f' || c == 'w' {
            let mut code_with_suffix = crate::dictionary::clone_chars(&self.state.current_code);
            code_with_suffix.push(c);
            let exists_with_suffix = self.dictionary.lookup(&code_with_suffix).is_some();
            if !exists_with_suffix && self.state.current_code.len() > 0 {
                let slot: usize = if c == 'v' {
                    1
                } else if c == 'r' {
                    2
                } else if c == 's' {
                    3
                } else if c == 'f' {
                    4
                } else {
                    5
                };
                match self.dictionary.lookup(&self.state.current_code) {
                    Some(cands) => {
                        if cands.len() > slot {
                            let trigger = if code_with_suffix.len() < MAX_CODE_LEN {
                                !self.dictionary.has_prefix(&code_with_suffix)
                            } else {
                                code_with_suffix.len() == MAX_CODE_LEN
                            };
                            if trigger {
                                let selected = cands[slot].clone();
                                self.state.complement_selected = Some(selected.clone());
                                return (true, Some(selected));
                            }
                        }
                    },
                    None => {},
                }
            }
        }
        self.state.append_code(c);
        self.state.lookup_candidates(&self.dictionary);
        (true, None)
    }

    /// One symbol of input, handled as `symbol_input_m` says: punctuation
    /// composition against the table. Returns whether a mapping was found
    /// and the candidate now pending.
    pub fn handle_symbol_input(&mut self, symbol: char) -> (r: (bool, Option<String>))
        ensures
            ({
                let (m, ok, out) = symbol_input_m(old(self).dict(), old(self).comp(), symbol);
                &&& final(self).comp() == m
                &&& final(self).dict() == old(self).dict()
                &&& r.0 == ok
                &&& r.1.deep_view() == out
            }),
    {
        if self.state.current_code.len() > 0 {
            let mut code_with_symbol = crate::dictionary::clone_chars(&self.state.current_code);
            code_with_symbol.push(symbol);
            match self.dictionary.lookup(&code_with_symbol) {
                Some(cands) => {
                    if cands.len() > 0 {
                        let selected = cands[0].clone();
                        self.state.complement_selected = Some(selected.clone());
                        return (true, Some(selected));
                    }
                },
                None => {},
            }
            (false, None)
        } else {
            self.state.append_code(symbol);
            match self.dictionary.lookup(&self.state.current_code) {
                Some(cands) => {
                    if cands.len() > 0 {
                        let selected = cands[0].clone();
                        self.state.complement_selected = Some(selected.clone());
                        return (true, Some(selected));
                    }
                },
                None => {},
            }
            self.state.current_code.pop();
            proof {
                assert(self.state.current_code@ =~= old(self).state.current_code@);
            }
            (false, None)
        }
    }

    /// Digit selection within the current page, as `number_selection_m`
    /// says; a committed candidate resets the whole state.
    pub fn handle_number_selection(&mut self, num: u8) -> (r: Option<String>)
        ensures
            ({
                let (m, out) = number_selection_m(old(self).comp(), num as int);
                &&& final(self).comp() == m
                &&& final(self).dict() == old(self).dict()
                &&& r.deep_view() == out
            }),
    {
        if num > 9 {
            return None;
        }
        let index: usize = if num == 0 {
            9
        } else {
            (num - 1) as usize
        };
        match self.state.select_candidate(index) {
            Some(selected) => {
                self.state.clear();
                Some(selected)
            },
            None => None,
        }
    }

    /// Backspace, as `backspace_m` says: reports false on an empty code so
    /// the keystroke can be forwarded instead.
    pub fn handle_backspace(&mut self) -> (r: bool)
        ensures
            ({
                let (m, handled) = backspace_m(old(self).dict(), old(self).comp());
                &&& final(self).comp() == m
                &&& final(self).dict() == old(self).dict()
                &&& r == handled
            }),
    {
        if self.state.current_code.len() == 0 {
            return false;
        }
        self.state.delete_last_code();
        self.state.lookup_candidates(&self.dictionary);
        true
    }

    /// Confirmation, as `space_m` says: the pending confirmation first, then
    /// the head of the candidate list; a commit resets the whole state.
    pub fn handle_space(&mut self) -> (r: Option<String>)
        ensures
            ({
                let (m, out) = space_m(old(self).comp());
                &&& final(self).comp() == m
                &&& final(self).dict() == old(self).dict()
                &&& r.deep_view() == out
            }),
    {
        let pending = match &self.state.complement_selected {
            Some(s) => Some(s.clone()),
            None => None,
        };
        if let Some(sel) = pending {
            self.state.clear();
            return Some(sel);
        }
        if self.state.candidates.len() > 0 {
            let first = self.state.candidates[0].clone();
            self.state.clear();
            return Some(first);
        }
        None
    }

    /// The raw peek: the code itself when non-empty, with no side effect.
    pub fn handle_enter(&mut self) -> (r: Option<String>)
        ensures
            *final(self) == *old(self),
            r.deep_view() == enter_peek_m(old(self).comp()),
    {
        if self.state.current_code.len() > 0 {
            Some(string_from_chars(&self.state.current_code))
        } else {
            None
        }
    }

    /// The composition state, read-only.
    pub fn get_state(&self) -> (r: &InputMethodState)
        ensures
            *r == self.state,
    {
        &self.state
    }

    /// Reset the whole composition state.
    pub fn clear(&mut self)
        ensures
            final(self).comp() == clear_m(old(self).comp()),
            final(self).dict() == old(self).dict(),
    {
        self.state.clear();
    }
}

} // verus!
