//! Movement on the screen: a selection that glides from row to row, spinners
//! and the progress bar.

use vstd::prelude::*;
use vstd::string::*;

verus! {

/// How long a selection glides.
pub const GLIDE_MS: u64 = 150;

/// The most rows that a selection glides over.
pub const MAX_GLIDE_ROWS: usize = 6;

/// How many pictures a spinner has.
pub const SPINNER_FRAME_COUNT: usize = 10;

/// The widest progress bar.
pub const MAX_PROGRESS_WIDTH: usize = 20;

/// A glide from one place to a row. Places are counted in thousandths of rows.
#[derive(Clone, Copy, Debug, Eq, PartialEq, Structural)]
pub struct Glide {
    pub from: u128,
    pub target: usize,
    pub started_ms: u64,
}

impl Glide {
    /// Where the glide ends.
    pub open spec fn goal(self) -> int {
        self.target * 1_000
    }

    /// How long the glide has taken.
    pub open spec fn elapsed(self, now_ms: u64) -> int {
        if now_ms < self.started_ms {
            0
        } else {
            now_ms - self.started_ms
        }
    }

    /// Where the glide is.
    pub open spec fn place(self, now_ms: u64) -> int {
        let elapsed = self.elapsed(now_ms);
        if elapsed >= GLIDE_MS {
            self.goal()
        } else if self.from <= self.goal() {
            self.from + (self.goal() - self.from) * elapsed / 150
        } else {
            self.from - (self.from - self.goal()) * elapsed / 150
        }
    }

    /// What every glide keeps: it is short, and stays where rows can be.
    pub open spec fn wf(self) -> bool {
        &&& self.goal() - 6_000 <= self.from <= self.goal() + 6_000
        &&& self.from <= usize::MAX * 1_000
    }
}

/// The place of a selection that moves.
#[derive(Clone, Copy, Debug, Eq, PartialEq)]
pub struct SelectionMotion {
    glide: Option<Glide>,
}

impl View for SelectionMotion {
    type V = Option<Glide>;

    closed spec fn view(&self) -> Option<Glide> {
        self.glide
    }
}

/// The row where a motion is.
pub open spec fn row_of(motion: Option<Glide>, now_ms: u64) -> Option<int> {
    match motion {
        Some(glide) => Some((glide.place(now_ms) + 500) / 1_000),
        None => None,
    }
}

/// Whether a motion goes on.
pub open spec fn moves(motion: Option<Glide>, now_ms: u64) -> bool {
    motion matches Some(glide) && glide.elapsed(now_ms) < GLIDE_MS && glide.from != glide.goal()
}

/// A motion that rests on a row.
pub open spec fn resting(target: usize, now_ms: u64) -> Glide {
    Glide { from: (target * 1_000) as u128, target, started_ms: now_ms }
}

/// A motion that turns to another row, from where it is, or from no farther
/// than the most rows that a glide takes.
pub open spec fn turned(motion: Option<Glide>, target: usize, now_ms: u64) -> Glide {
    let goal = target * 1_000;
    match motion {
        Some(glide) => {
            let place = glide.place(now_ms);
            Glide {
                from: if place < goal - 6_000 {
                    (goal - 6_000) as u128
                } else if place > goal + 6_000 {
                    (goal + 6_000) as u128
                } else {
                    place as u128
                },
                target,
                started_ms: now_ms,
            }
        },
        None => resting(target, now_ms),
    }
}

proof fn lemma_place(glide: Glide, now_ms: u64)
    requires
        glide.wf(),
    ensures
        0 <= glide.place(now_ms) <= usize::MAX * 1_000,
        glide.goal() - 6_000 <= glide.place(now_ms) <= glide.goal() + 6_000,
{
    let elapsed = glide.elapsed(now_ms);
    if elapsed < GLIDE_MS {
        let distance = if glide.from <= glide.goal() {
            glide.goal() - glide.from
        } else {
            glide.from - glide.goal()
        };
        assert(0 <= distance * elapsed <= distance * 150) by (nonlinear_arith)
            requires
                0 <= distance,
                0 <= elapsed < 150,
        ;
    }
}

impl SelectionMotion {
    /// What every motion keeps.
    #[verifier::type_invariant]
    spec fn valid(self) -> bool {
        self.glide matches Some(glide) ==> glide.wf()
    }

    /// Nothing is selected.
    pub fn resting_nowhere() -> (motion: Self)
        ensures
            motion@ is None,
    {
        SelectionMotion { glide: None }
    }

    /// The row that the motion goes to.
    pub fn current_index(&self) -> (index: Option<usize>)
        ensures
            index == match self@ {
                Some(glide) => Some(glide.target),
                None => None,
            },
    {
        match self.glide {
            Some(glide) => Some(glide.target),
            None => None,
        }
    }

    fn place_now(glide: Glide, now_ms: u64) -> (place: u128)
        requires
            glide.wf(),
        ensures
            place == glide.place(now_ms),
            place <= usize::MAX * 1_000,
            glide.goal() - 6_000 <= place <= glide.goal() + 6_000,
    {
        proof {
            lemma_place(glide, now_ms);
        }
        let elapsed: u64 = now_ms.saturating_sub(glide.started_ms);
        let goal: u128 = glide.target as u128 * 1_000;
        if elapsed >= GLIDE_MS {
            return goal;
        }
        let distance: u128 = if glide.from <= goal {
            goal - glide.from
        } else {
            glide.from - goal
        };
        assert(distance * elapsed <= 6_000 * 150) by (nonlinear_arith)
            requires
                0 <= distance <= 6_000,
                0 <= elapsed < 150,
        ;
        if glide.from <= goal {
            glide.from + distance * elapsed as u128 / 150
        } else {
            glide.from - distance * elapsed as u128 / 150
        }
    }

    /// The row where the motion is.
    pub fn rounded_index(&self, now_ms: u64) -> (row: Option<usize>)
        ensures
            match row {
                Some(row) => row_of(self@, now_ms) == Some(row as int),
                None => row_of(self@, now_ms) is None,
            },
    {
        proof {
            use_type_invariant(self);
        }
        match self.glide {
            Some(glide) => {
                let place: u128 = SelectionMotion::place_now(glide, now_ms);
                Some(((place + 500) / 1_000) as usize)
            },
            None => None,
        }
    }

    /// Whether the motion goes on.
    pub fn is_transitioning(&self, now_ms: u64) -> (transitioning: bool)
        ensures
            transitioning == moves(self@, now_ms),
    {
        match self.glide {
            Some(glide) => now_ms.saturating_sub(glide.started_ms) < GLIDE_MS && glide.from
                != glide.target as u128 * 1_000,
            None => false,
        }
    }

    /// A motion that rests on `target`.
    pub fn snapped(target: usize, now_ms: u64) -> (motion: Self)
        ensures
            motion@ == Some(resting(target, now_ms)),
    {
        SelectionMotion {
            glide: Some(
                Glide { from: target as u128 * 1_000, target, started_ms: now_ms },
            ),
        }
    }

    /// The motion, turned to `target`.
    pub fn retargeted(&self, target: usize, now_ms: u64) -> (motion: Self)
        ensures
            motion@ == Some(turned(self@, target, now_ms)),
    {
        proof {
            use_type_invariant(self);
        }
        match self.glide {
            Some(glide) => {
                let place: u128 = SelectionMotion::place_now(glide, now_ms);
                let goal: u128 = target as u128 * 1_000;
                let from: u128 = if place + 6_000 < goal {
                    goal - 6_000
                } else if place > goal + 6_000 {
                    goal + 6_000
                } else {
                    place
                };
                SelectionMotion { glide: Some(Glide { from, target, started_ms: now_ms }) }
            },
            None => SelectionMotion::snapped(target, now_ms),
        }
    }
}

/// The picture of a spinner.
pub open spec fn spinner_picture(index: int) -> Seq<char> {
    let step = index % SPINNER_FRAME_COUNT as int;
    if step == 0 {
        "⠋"@
    } else if step == 1 {
        "⠙"@
    } else if step == 2 {
        "⠹"@
    } else if step == 3 {
        "⠸"@
    } else if step == 4 {
        "⠼"@
    } else if step == 5 {
        "⠴"@
    } else if step == 6 {
        "⠦"@
    } else if step == 7 {
        "⠧"@
    } else if step == 8 {
        "⠇"@
    } else {
        "⠏"@
    }
}

/// The picture of a spinner.
pub fn spinner_frame(index: usize) -> (picture: &'static str)
    ensures
        picture@ == spinner_picture(index as int),
{
    match index % SPINNER_FRAME_COUNT {
        0 => "⠋",
        1 => "⠙",
        2 => "⠹",
        3 => "⠸",
        4 => "⠼",
        5 => "⠴",
        6 => "⠦",
        7 => "⠧",
        8 => "⠇",
        _ => "⠏",
    }
}

/// Whether a text begins with a spinner.
pub open spec fn begins_with_spinner(text: Seq<char>) -> bool {
    text.len() > 0 && is_spinner(text[0])
}

/// Whether a character is the picture of a spinner.
pub open spec fn is_spinner(character: char) -> bool {
    ||| character == '⠋'
    ||| character == '⠙'
    ||| character == '⠹'
    ||| character == '⠸'
    ||| character == '⠼'
    ||| character == '⠴'
    ||| character == '⠦'
    ||| character == '⠧'
    ||| character == '⠇'
    ||| character == '⠏'
}

/// Whether a text begins with a spinner.
pub fn starts_with_spinner(text: &str) -> (spinner: bool)
    ensures
        spinner == begins_with_spinner(text@),
{
    let characters = crate::text::chars_of(text);
    if characters.len() == 0 {
        return false;
    }
    matches!(characters[0], '⠋' | '⠙' | '⠹' | '⠸' | '⠼' | '⠴' | '⠦' | '⠧' | '⠇' | '⠏')
}

/// Every picture of a spinner is recognised as one.
pub proof fn law_spinner_is_recognised(index: int)
    ensures
        begins_with_spinner(spinner_picture(index)),
{
    reveal_strlit("⠋");
    reveal_strlit("⠙");
    reveal_strlit("⠹");
    reveal_strlit("⠸");
    reveal_strlit("⠼");
    reveal_strlit("⠴");
    reveal_strlit("⠦");
    reveal_strlit("⠧");
    reveal_strlit("⠇");
    reveal_strlit("⠏");
}

/// How far playback is, for every width that the progress bar can have: how many
/// eighths of a cell are filled, and which of the filled cells shines. What is not
/// listed counts as 0.
#[derive(Debug, Eq, PartialEq)]
pub struct ProgressPresentation {
    pub eighths_by_width: Vec<usize>,
    pub shine_by_filled_cells: Vec<usize>,
}

/// What a [`ProgressPresentation`] says.
#[verifier::ext_equal]
pub struct ProgressView {
    pub eighths_by_width: Seq<usize>,
    pub shine_by_filled_cells: Seq<usize>,
}

impl View for ProgressPresentation {
    type V = ProgressView;

    open spec fn view(&self) -> ProgressView {
        ProgressView {
            eighths_by_width: self.eighths_by_width@,
            shine_by_filled_cells: self.shine_by_filled_cells@,
        }
    }
}

/// The number at `index`, or 0 where the list is too short.
pub open spec fn number_at(numbers: Seq<usize>, index: int) -> int {
    if 0 <= index < numbers.len() {
        numbers[index] as int
    } else {
        0
    }
}

impl ProgressView {
    /// Whether this says how a bar of this width is filled: all widths of the
    /// player's bar do, and those beyond it where they are listed.
    pub open spec fn covers(self, width: int) -> bool {
        ||| width <= MAX_PROGRESS_WIDTH
        ||| width < self.eighths_by_width.len() && width < self.shine_by_filled_cells.len()
    }

    /// How many eighths of a bar of this width are filled.
    pub open spec fn eighths(self, width: int) -> int {
        number_at(self.eighths_by_width, width)
    }

    /// Which of so many filled cells shines.
    pub open spec fn shine(self, filled_cells: int) -> int {
        number_at(self.shine_by_filled_cells, filled_cells)
    }
}

fn listed_number(numbers: &Vec<usize>, index: usize) -> (number: usize)
    ensures
        number == number_at(numbers@, index as int),
{
    if index < numbers.len() {
        numbers[index]
    } else {
        0
    }
}

impl ProgressPresentation {
    /// How many eighths of a bar of this width are filled.
    pub fn eighths(&self, width: usize) -> (eighths: usize)
        ensures
            eighths == self@.eighths(width as int),
    {
        listed_number(&self.eighths_by_width, width)
    }

    /// Which of so many filled cells shines.
    pub fn shine(&self, filled_cells: usize) -> (cell: usize)
        ensures
            cell == self@.shine(filled_cells as int),
    {
        listed_number(&self.shine_by_filled_cells, filled_cells)
    }
}

fn clone_numbers(numbers: &Vec<usize>) -> (copy: Vec<usize>)
    ensures
        copy@ == numbers@,
{
    let mut copy: Vec<usize> = Vec::new();
    let mut index: usize = 0;
    while index < numbers.len()
        invariant
            index <= numbers.len(),
            copy@ == numbers@.take(index as int),
        decreases numbers.len() - index,
    {
        copy.push(numbers[index]);
        index = index + 1;
        assert(numbers@.take(index as int) =~= numbers@.take(index - 1).push(
            numbers@[index - 1],
        ));
    }
    assert(numbers@.take(index as int) =~= numbers@);
    copy
}

impl Clone for ProgressPresentation {
    fn clone(&self) -> (copy: Self)
        ensures
            copy@ == self@,
    {
        ProgressPresentation {
            eighths_by_width: clone_numbers(&self.eighths_by_width),
            shine_by_filled_cells: clone_numbers(&self.shine_by_filled_cells),
        }
    }
}

/// The moment that is drawn.
#[derive(Debug, Eq, PartialEq)]
pub struct MotionFrame {
    pub elapsed_ms: u64,
    pub spinner_index: usize,
    pub progress: ProgressPresentation,
}

/// What a [`MotionFrame`] says.
#[verifier::ext_equal]
pub struct MotionFrameView {
    pub elapsed_ms: u64,
    pub spinner_index: usize,
    pub progress: ProgressView,
}

impl View for MotionFrame {
    type V = MotionFrameView;

    open spec fn view(&self) -> MotionFrameView {
        MotionFrameView {
            elapsed_ms: self.elapsed_ms,
            spinner_index: self.spinner_index,
            progress: self.progress@,
        }
    }
}

impl Clone for MotionFrame {
    fn clone(&self) -> (copy: Self)
        ensures
            copy@ == self@,
    {
        MotionFrame {
            elapsed_ms: self.elapsed_ms,
            spinner_index: self.spinner_index,
            progress: self.progress.clone(),
        }
    }
}

/// A glide is over in its time: then the selection rests on its row.
pub proof fn law_glide_ends_on_target(glide: Glide, now_ms: u64)
    requires
        glide.wf(),
        now_ms >= glide.started_ms + GLIDE_MS,
    ensures
        row_of(Some(glide), now_ms) == Some(glide.target as int),
        !moves(Some(glide), now_ms),
{
}

/// A selection that turns to another row does not jump, unless the row is too far.
pub proof fn law_turning_does_not_jump(glide: Glide, target: usize, now_ms: u64)
    requires
        glide.wf(),
        target * 1_000 - 6_000 <= glide.place(now_ms) <= target * 1_000 + 6_000,
    ensures
        turned(Some(glide), target, now_ms).wf(),
        row_of(Some(turned(Some(glide), target, now_ms)), now_ms) == row_of(Some(glide), now_ms),
{
    lemma_place(glide, now_ms);
    let next = turned(Some(glide), target, now_ms);
    assert((next.goal() - next.from) * 0 == 0) by (nonlinear_arith);
    assert((next.from - next.goal()) * 0 == 0) by (nonlinear_arith);
}

/// A selection never glides over more rows than the limit.
pub proof fn law_glides_are_short(glide: Glide, target: usize, now_ms: u64)
    requires
        glide.wf(),
    ensures
        turned(Some(glide), target, now_ms).wf(),
        row_of(Some(turned(Some(glide), target, now_ms)), now_ms) matches Some(row) ==> target
            - MAX_GLIDE_ROWS <= row <= target + MAX_GLIDE_ROWS,
{
    lemma_place(glide, now_ms);
    lemma_place(turned(Some(glide), target, now_ms), now_ms);
}

} // verus!
