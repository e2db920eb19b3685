use vstd::prelude::*;
use std::collections::HashMap;

verus! {

broadcast use {vstd::std_specs::hash::group_hash_axioms, vstd::seq_lib::lemma_seq_contains_after_push};

/// A character of the player's faction as selection sees it: its entity, and
/// whether it can still act this turn (it is alive and has action points left).
#[derive(Clone, Copy, PartialEq, Eq, Structural, Debug)]
pub struct CharacterStatus {
    pub entity: u64,
    pub ready: bool,
}

/// Which of the player's characters is selected, and which ones the player has
/// skipped this turn.
#[derive(Debug)]
pub struct Selection {
    pub selected: Option<u64>,
    pub skipped: Vec<u64>,
}

/// The characters that selection may move to: those that can act and have not
/// been skipped, the selected one kept even if skipped.
pub open spec fn selectable(chars: Seq<CharacterStatus>, skipped: Seq<u64>, selected: Option<u64>) -> Seq<u64>
    decreases chars.len(),
{
    if chars.len() == 0 {
        Seq::empty()
    } else {
        let c = chars.last();
        let rest = selectable(chars.drop_last(), skipped, selected);
        if c.ready && !(skipped.contains(c.entity) && selected != Some(c.entity)) {
            rest.push(c.entity)
        } else {
            rest
        }
    }
}

/// The first position of `e` in `s`, or 0 when it is not there.
pub open spec fn position_or_zero(s: Seq<u64>, e: u64) -> int {
    if s.contains(e) {
        choose|i: int| 0 <= i < s.len() && s[i] == e && forall|j: int| 0 <= j < i ==> s[j] != e
    } else {
        0
    }
}

/// The character selected after moving on from `selected`: the next selectable
/// character after it (after the last when none is selected, so the first), wrapping
/// around; none when there is no selectable character or the next one was skipped,
/// which means that every one was.
pub open spec fn next_selection(chars: Seq<CharacterStatus>, skipped: Seq<u64>, selected: Option<u64>) -> Option<u64> {
    let cands = selectable(chars, skipped, selected);
    if cands.len() == 0 {
        None
    } else {
        let cur = match selected {
            Some(s) => position_or_zero(cands, s),
            None => cands.len() - 1,
        };
        let next = cands[(cur + 1) % (cands.len() as int)];
        if skipped.contains(next) {
            None
        } else {
            Some(next)
        }
    }
}

fn contains_u64(v: &Vec<u64>, e: u64) -> (r: bool)
    ensures
        r == v@.contains(e),
{
    let mut i: usize = 0;
    while i < v.len()
        invariant
            i <= v@.len(),
            forall|j: int| 0 <= j < i ==> v@[j] != e,
        decreases v.len() - i,
    {
        if v[i] == e {
            return true;
        }
        i = i + 1;
    }
    false
}

fn position_of(v: &Vec<u64>, e: u64) -> (r: Option<usize>)
    ensures
        r matches Some(k) ==> k < v@.len() && v@[k as int] == e && forall|j: int| 0 <= j < k ==> v@[j] != e,
        r is None ==> !v@.contains(e),
{
    let mut i: usize = 0;
    while i < v.len()
        invariant
            i <= v@.len(),
            forall|j: int| 0 <= j < i ==> v@[j] != e,
        decreases v.len() - i,
    {
        if v[i] == e {
            return Some(i);
        }
        i = i + 1;
    }
    None
}

fn selectable_of(chars: &Vec<CharacterStatus>, skipped: &Vec<u64>, selected: Option<u64>) -> (r: Vec<u64>)
    ensures
        r@ == selectable(chars@, skipped@, selected),
{
    let mut r: Vec<u64> = Vec::new();
    let mut i: usize = 0;
    while i < chars.len()
        invariant
            i <= chars@.len(),
            r@ == selectable(chars@.subrange(0, i as int), skipped@, selected),
        decreases chars.len() - i,
    {
        let c = chars[i];
        proof {
            let next = chars@.subrange(0, i + 1);
            assert(next.drop_last() =~= chars@.subrange(0, i as int));
        }
        let skip = contains_u64(skipped, c.entity) && selected != Some(c.entity);
        if c.ready && !skip {
            r.push(c.entity);
        }
        i = i + 1;
    }
    assert(chars@.subrange(0, chars@.len() as int) =~= chars@);
    r
}

impl Selection {
    /// Nothing selected, nobody skipped.
    pub fn new() -> (s: Selection)
        ensures
            s.selected is None,
            s.skipped@.len() == 0,
    {
        Selection { selected: None, skipped: Vec::new() }
    }

    /// Moves the selection on to the next character that can act, given the player's
    /// characters ordered by entity.
    pub fn select_next_character(&mut self, chars: &Vec<CharacterStatus>)
        ensures
            final(self).skipped@ == old(self).skipped@,
            final(self).selected == next_selection(chars@, old(self).skipped@, old(self).selected),
    {
        let cands = selectable_of(chars, &self.skipped, self.selected);
        let n = cands.len();
        let cur: usize = match self.selected {
            Some(sel) => match position_of(&cands, sel) {
                Some(k) => k,
                None => 0,
            },
            None => if n > 0 {
                n - 1
            } else {
                0
            },
        };
        if n > 0 {
            let next = cands[(cur + 1) % n];
            if contains_u64(&self.skipped, next) {
                self.selected = None;
            } else {
                self.selected = Some(next);
            }
        } else {
            self.selected = None;
        }
    }

    /// A skipped selected character is no longer skipped, an unskipped one is skipped.
    pub fn toggle_skip_selected(&mut self)
        ensures
            final(self).selected == old(self).selected,
            match old(self).selected {
                Some(s) => if old(self).skipped@.contains(s) {
                    final(self).skipped@ == old(self).skipped@.filter(|e: u64| e != s)
                } else {
                    final(self).skipped@ == old(self).skipped@.push(s)
                },
                None => final(self).skipped@ == old(self).skipped@,
            },
    {
        if let Some(sel) = self.selected {
            if contains_u64(&self.skipped, sel) {
                let mut kept: Vec<u64> = Vec::new();
                let mut i: usize = 0;
                while i < self.skipped.len()
                    invariant
                        i <= self.skipped@.len(),
                        self.skipped@ == old(self).skipped@,
                        kept@ == self.skipped@.subrange(0, i as int).filter(|e: u64| e != sel),
                    decreases self.skipped.len() - i,
                {
                    let e = self.skipped[i];
                    proof {
                        let next = self.skipped@.subrange(0, i + 1);
                        reveal_with_fuel(Seq::<u64>::filter, 1);
                        assert(next.drop_last() =~= self.skipped@.subrange(0, i as int));
                    }
                    if e != sel {
                        kept.push(e);
                    }
                    i = i + 1;
                }
                assert(self.skipped@.subrange(0, self.skipped@.len() as int) =~= self.skipped@);
                self.skipped = kept;
            } else {
                self.skipped.push(sel);
            }
        }
    }

    /// The player pressed escape and `windows_were_open` says whether that closed any
    /// auxiliary window: if none was open, the selected character is deselected, or
    /// with nothing selected the escape menu is toggled, as the result says.
    pub fn escape_pressed(&mut self, windows_were_open: bool) -> (toggle_menu: bool)
        ensures
            final(self).skipped@ == old(self).skipped@,
            windows_were_open ==> !toggle_menu && final(self).selected == old(self).selected,
            !windows_were_open && old(self).selected is Some ==> !toggle_menu && final(self).selected is None,
            !windows_were_open && old(self).selected is None ==> toggle_menu && final(self).selected is None,
    {
        if windows_were_open {
            false
        } else if self.selected.is_some() {
            self.selected = None;
            false
        } else {
            true
        }
    }

    /// The player pressed the skip key: the selected character's skip is toggled and
    /// the selection moves on; the result says whether nobody is left to select, in
    /// which case the turn ends.
    pub fn space_pressed(&mut self, chars: &Vec<CharacterStatus>) -> (end_turn: bool)
        ensures
            ({
                let toggled = match old(self).selected {
                    Some(s) => if old(self).skipped@.contains(s) {
                        old(self).skipped@.filter(|e: u64| e != s)
                    } else {
                        old(self).skipped@.push(s)
                    },
                    None => old(self).skipped@,
                };
                &&& final(self).skipped@ == toggled
                &&& final(self).selected == next_selection(chars@, toggled, old(self).selected)
                &&& end_turn == final(self).selected is None
            }),
    {
        self.toggle_skip_selected();
        self.select_next_character(chars);
        self.selected.is_none()
    }

    /// The player clicked character `found` of faction `found_faction`, the selected
    /// character being of faction `selected_faction`: clicking the selected character
    /// deselects it (and the caller closes auxiliary windows, as the result says),
    /// clicking another of the same faction selects it, and with nothing selected the
    /// clicked character becomes selected.
    pub fn click_character(&mut self, found: u64, found_faction: u64, selected_faction: u64) -> (close_windows: bool)
        ensures
            final(self).skipped@ == old(self).skipped@,
            match old(self).selected {
                Some(cur) => if cur == found {
                    close_windows && final(self).selected is None
                } else if selected_faction == found_faction {
                    !close_windows && final(self).selected == Some(found)
                } else {
                    !close_windows && final(self).selected == old(self).selected
                },
                None => !close_windows && final(self).selected == Some(found),
            },
    {
        match self.selected {
            Some(cur) => {
                if cur == found {
                    self.selected = None;
                    true
                } else {
                    if selected_faction == found_faction {
                        self.selected = Some(found);
                    }
                    false
                }
            },
            None => {
                self.selected = Some(found);
                false
            },
        }
    }
}

/// Every character selection may move to can still act.
pub proof fn lemma_selectable_ready(chars: Seq<CharacterStatus>, skipped: Seq<u64>, selected: Option<u64>, x: u64)
    requires
        selectable(chars, skipped, selected).contains(x),
    ensures
        exists|i: int| 0 <= i < chars.len() && #[trigger] chars[i].entity == x && chars[i].ready,
    decreases chars.len(),
{
    let rest = selectable(chars.drop_last(), skipped, selected);
    let c = chars.last();
    if rest.contains(x) {
        lemma_selectable_ready(chars.drop_last(), skipped, selected, x);
        let i = choose|i: int| 0 <= i < chars.drop_last().len() && #[trigger] chars.drop_last()[i].entity == x
            && chars.drop_last()[i].ready;
        assert(chars[i] == chars.drop_last()[i]);
    } else {
        assert(c.entity == x && c.ready);
        assert(chars[chars.len() - 1] == c);
    }
}

/// The characters selection may move to are exactly those that can still act and
/// either were not skipped or are the selected one: the selected character stays a
/// candidate even when skipped, so that moving on from it finds the one after it.
pub proof fn lemma_selectable_members(chars: Seq<CharacterStatus>, skipped: Seq<u64>, selected: Option<u64>, x: u64)
    ensures
        selectable(chars, skipped, selected).contains(x) <==> exists|i: int|
            0 <= i < chars.len() && #[trigger] chars[i].entity == x && chars[i].ready && (!skipped.contains(x)
                || selected == Some(x)),
    decreases chars.len(),
{
    if chars.len() > 0 {
        let rest = chars.drop_last();
        let c = chars.last();
        lemma_selectable_members(rest, skipped, selected, x);
        let r = selectable(rest, skipped, selected);
        let keep = c.ready && !(skipped.contains(c.entity) && selected != Some(c.entity));
        if keep {
            assert(selectable(chars, skipped, selected) == r.push(c.entity));
        } else {
            assert(selectable(chars, skipped, selected) == r);
        }
        if exists|i: int|
            0 <= i < chars.len() && #[trigger] chars[i].entity == x && chars[i].ready && (!skipped.contains(x)
                || selected == Some(x)) {
            let i = choose|i: int|
                0 <= i < chars.len() && #[trigger] chars[i].entity == x && chars[i].ready && (!skipped.contains(x)
                    || selected == Some(x));
            if i < chars.len() - 1 {
                assert(rest[i] == chars[i]);
            } else {
                assert(c == chars[i]);
            }
        }
        if r.contains(x) {
            let i = choose|i: int|
                0 <= i < rest.len() && #[trigger] rest[i].entity == x && rest[i].ready && (!skipped.contains(x)
                    || selected == Some(x));
            assert(chars[i] == rest[i]);
        }
        if keep && x == c.entity {
            assert(chars[chars.len() - 1] == c);
        }
    }
}

/// Moving the selection on never selects a skipped character, and selects only a
/// character that can still act.
pub proof fn lemma_next_selection_sound(chars: Seq<CharacterStatus>, skipped: Seq<u64>, selected: Option<u64>)
    ensures
        next_selection(chars, skipped, selected) matches Some(e) ==> !skipped.contains(e) && exists|i: int|
            0 <= i < chars.len() && #[trigger] chars[i].entity == e && chars[i].ready,
{
    let cands = selectable(chars, skipped, selected);
    if let Some(e) = next_selection(chars, skipped, selected) {
        lemma_selectable_ready(chars, skipped, selected, e);
    }
}

/// How a battle stands after a turn: each character's life and side.
#[derive(Clone, Copy, PartialEq, Eq, Structural, Debug)]
pub struct Combatant {
    pub alive: bool,
    pub ally: bool,
}

/// Whether some combatant on the given side is alive.
pub open spec fn side_alive(cs: Seq<Combatant>, ally: bool) -> bool {
    exists|i: int| 0 <= i < cs.len() && cs[i].alive && cs[i].ally == ally
}

/// The victory and defeat times after a turn that ends at time `now`: with no
/// living enemy the battle is won at `now - 1`, else with no living ally it is lost
/// then; a time already recorded is kept.
pub fn turn_outcome(combatants: &Vec<Combatant>, victory: Option<u64>, defeat: Option<u64>, now: u64) -> (r: (Option<u64>, Option<u64>))
    requires
        now > 0,
    ensures
        !side_alive(combatants@, false) ==> r == (if victory is Some { victory } else { Some((now - 1) as u64) }, defeat),
        side_alive(combatants@, false) && !side_alive(combatants@, true) ==> r == (victory, if defeat is Some { defeat } else { Some((now - 1) as u64) }),
        side_alive(combatants@, false) && side_alive(combatants@, true) ==> r == (victory, defeat),
{
    let mut living_enemy = false;
    let mut living_ally = false;
    let mut i: usize = 0;
    while i < combatants.len()
        invariant
            i <= combatants@.len(),
            living_enemy == exists|j: int| 0 <= j < i && combatants@[j].alive && !combatants@[j].ally,
            living_ally == exists|j: int| 0 <= j < i && combatants@[j].alive && combatants@[j].ally,
        decreases combatants.len() - i,
    {
        let c = combatants[i];
        if c.alive {
            if !c.ally {
                living_enemy = true;
            } else {
                living_ally = true;
            }
        }
        i = i + 1;
    }
    let fallback = now - 1;
    if !living_enemy {
        (if victory.is_some() { victory } else { Some(fallback) }, defeat)
    } else if !living_ally {
        (victory, if defeat.is_some() { defeat } else { Some(fallback) })
    } else {
        (victory, defeat)
    }
}

/// A thing that can be harvested at a hex: its entity and the resource it yields.
#[derive(Clone, Copy, PartialEq, Eq, Structural, Debug)]
pub struct HarvestOption {
    pub entity: u64,
    pub resource: u64,
}

/// Whether `e` is among the options.
pub open spec fn offers(opts: Seq<HarvestOption>, e: u64) -> bool {
    exists|i: int| 0 <= i < opts.len() && opts[i].entity == e
}

/// Whether some option yields resource `r`.
pub open spec fn yields(opts: Seq<HarvestOption>, r: u64) -> bool {
    exists|i: int| 0 <= i < opts.len() && opts[i].resource == r
}

/// The first option that yields resource `r`.
pub open spec fn first_yielding(opts: Seq<HarvestOption>, r: u64) -> int {
    choose|i: int| 0 <= i < opts.len() && opts[i].resource == r && forall|j: int| 0 <= j < i ==> opts[j].resource != r
}

/// What to harvest among options sorted by desirability: the preferred thing if it
/// is there, else the first that yields the preferred thing's resource, else the most
/// desirable; nothing when there are no options.
pub open spec fn chosen_harvestable(opts: Seq<HarvestOption>, preferred: Option<u64>, preferred_resource: Option<u64>) -> Option<u64> {
    if opts.len() == 0 {
        None
    } else if preferred is Some && offers(opts, preferred.unwrap()) {
        preferred
    } else if preferred_resource is Some && yields(opts, preferred_resource.unwrap()) {
        Some(opts[first_yielding(opts, preferred_resource.unwrap())].entity)
    } else {
        Some(opts[0].entity)
    }
}

/// Chooses what to harvest among options sorted by desirability, given the
/// character's preferred thing and that thing's resource.
pub fn choose_harvestable(options: &Vec<HarvestOption>, preferred: Option<u64>, preferred_resource: Option<u64>) -> (r: Option<u64>)
    ensures
        r == chosen_harvestable(options@, preferred, preferred_resource),
{
    if options.len() == 0 {
        return None;
    }
    if let Some(p) = preferred {
        let mut i: usize = 0;
        while i < options.len()
            invariant
                i <= options@.len(),
                options@.len() > 0,
                preferred == Some(p),
                forall|j: int| 0 <= j < i ==> options@[j].entity != p,
            decreases options.len() - i,
        {
            if options[i].entity == p {
                return Some(p);
            }
            i = i + 1;
        }
    }
    if let Some(res) = preferred_resource {
        let mut i: usize = 0;
        while i < options.len()
            invariant
                i <= options@.len(),
                options@.len() > 0,
                preferred_resource == Some(res),
                !(preferred is Some && offers(options@, preferred.unwrap())),
                forall|j: int| 0 <= j < i ==> options@[j].resource != res,
            decreases options.len() - i,
        {
            if options[i].resource == res {
                return Some(options[i].entity);
            }
            i = i + 1;
        }
    }
    Some(options[0].entity)
}

/// The thing each character prefers to harvest.
#[derive(Debug)]
pub struct HarvestPreferences {
    pub preferred_by_character: HashMap<u64, u64>,
}

impl HarvestPreferences {
    /// No preferences.
    pub fn new() -> (h: HarvestPreferences)
        ensures
            h.preferred_by_character@ == Map::<u64, u64>::empty(),
    {
        HarvestPreferences { preferred_by_character: HashMap::new() }
    }

    /// The thing `character` prefers to harvest, if any.
    pub fn preferred(&self, character: u64) -> (r: Option<u64>)
        ensures
            r == (if self.preferred_by_character@.contains_key(character) {
                Some(self.preferred_by_character@[character])
            } else {
                None::<u64>
            }),
    {
        match self.preferred_by_character.get(&character) {
            Some(e) => Some(*e),
            None => None,
        }
    }

    /// The player pressed number key `num` while choosing what `character` harvests
    /// among options sorted by desirability: the `num`-th option, if there is one,
    /// becomes the preferred thing.
    pub fn choose_by_number(&mut self, character: u64, options: &Vec<HarvestOption>, num: u32)
        ensures
            1 <= num <= options@.len() ==> final(self).preferred_by_character@ == old(self).preferred_by_character@.insert(
                character,
                options@[num - 1].entity,
            ),
            !(1 <= num <= options@.len()) ==> final(self).preferred_by_character@ == old(self).preferred_by_character@,
    {
        if num >= 1 && ((num - 1) as usize) < options.len() {
            let e = options[(num - 1) as usize].entity;
            self.preferred_by_character.insert(character, e);
        }
    }
}

/// A hex of the map in axial coordinates.
#[derive(Clone, Copy, PartialEq, Eq, Structural, Debug)]
pub struct AxialCoord {
    pub q: i32,
    pub r: i32,
}

/// Whether hexes `a` and `b` share an edge.
pub open spec fn are_neighbors(a: AxialCoord, b: AxialCoord) -> bool {
    let dq = b.q - a.q;
    let dr = b.r - a.r;
    ||| dq == 1 && dr == 0
    ||| dq == 1 && dr == -1
    ||| dq == 0 && dr == -1
    ||| dq == -1 && dr == 0
    ||| dq == -1 && dr == 1
    ||| dq == 0 && dr == 1
}

/// Whether both coordinates of `h` lie strictly inside the range of `i32`, so that
/// every neighbour of `h` can be written down.
pub open spec fn inside_map_range(h: AxialCoord) -> bool {
    i32::MIN < h.q < i32::MAX && i32::MIN < h.r < i32::MAX
}

impl AxialCoord {
    /// The six hexes around this one.
    pub fn neighbors(&self) -> (n: Vec<AxialCoord>)
        requires
            inside_map_range(*self),
        ensures
            n@.len() == 6,
            forall|h: AxialCoord| n@.contains(h) <==> are_neighbors(*self, h),
    {
        let (q, r) = (self.q, self.r);
        let n = vec![
            AxialCoord { q: q + 1, r },
            AxialCoord { q: q + 1, r: r - 1 },
            AxialCoord { q, r: r - 1 },
            AxialCoord { q: q - 1, r },
            AxialCoord { q: q - 1, r: r + 1 },
            AxialCoord { q, r: r + 1 },
        ];
        proof {
            assert forall|h: AxialCoord| n@.contains(h) <==> are_neighbors(*self, h) by {
                if are_neighbors(*self, h) {
                    if h.q - q == 1 && h.r - r == 0 {
                        assert(n@[0] == h);
                    } else if h.q - q == 1 && h.r - r == -1 {
                        assert(n@[1] == h);
                    } else if h.q - q == 0 && h.r - r == -1 {
                        assert(n@[2] == h);
                    } else if h.q - q == -1 && h.r - r == 0 {
                        assert(n@[3] == h);
                    } else if h.q - q == -1 && h.r - r == 1 {
                        assert(n@[4] == h);
                    } else {
                        assert(n@[5] == h);
                    }
                }
            }
        }
        n
    }
}

fn hex_in(v: &Vec<AxialCoord>, h: AxialCoord) -> (r: bool)
    ensures
        r == v@.contains(h),
{
    let mut i: usize = 0;
    while i < v.len()
        invariant
            i <= v@.len(),
            forall|j: int| 0 <= j < i ==> v@[j] != h,
        decreases v.len() - i,
    {
        if v[i] == h {
            return true;
        }
        i = i + 1;
    }
    false
}

/// The hexes a character may harvest from this turn: none when it has no action
/// points left; else every hex it can reach this turn, and every open hex next to
/// one of those.
pub open spec fn harvest_reach(has_action_points: bool, reachable: Seq<AxialCoord>, open: Seq<AxialCoord>) -> Set<AxialCoord> {
    if has_action_points {
        Set::new(
            |h: AxialCoord|
                reachable.contains(h) || (open.contains(h) && exists|i: int|
                    0 <= i < reachable.len() && are_neighbors(#[trigger] reachable[i], h)),
        )
    } else {
        Set::empty()
    }
}

/// Whether `h` is among the first `k` reachable hexes.
pub open spec fn reached_within(reachable: Seq<AxialCoord>, k: int, h: AxialCoord) -> bool {
    exists|j: int| 0 <= j < k && #[trigger] reachable[j] == h
}

/// Whether `h` is next to one of the first `k` reachable hexes.
pub open spec fn next_to_reached_within(reachable: Seq<AxialCoord>, k: int, h: AxialCoord) -> bool {
    exists|j: int| 0 <= j < k && are_neighbors(#[trigger] reachable[j], h)
}

/// The hexes a character may harvest from this turn, each once, given whether it
/// has action points left, the hexes it can reach this turn, and the open hexes:
/// those of the map that no one occupies.
pub fn harvestable_hexes(has_action_points: bool, reachable: &Vec<AxialCoord>, open: &Vec<AxialCoord>) -> (r: Vec<AxialCoord>)
    requires
        forall|i: int| 0 <= i < reachable@.len() ==> inside_map_range(#[trigger] reachable@[i]),
    ensures
        r@.to_set() == harvest_reach(has_action_points, reachable@, open@),
        r@.no_duplicates(),
{
    let mut out: Vec<AxialCoord> = Vec::new();
    if !has_action_points {
        proof {
            assert(out@.to_set() =~= Set::empty());
        }
        return out;
    }
    let mut i: usize = 0;
    while i < reachable.len()
        invariant
            i <= reachable@.len(),
            forall|j: int| 0 <= j < reachable@.len() ==> inside_map_range(#[trigger] reachable@[j]),
            out@.no_duplicates(),
            forall|h: AxialCoord|
                out@.contains(h) <==> (reached_within(reachable@, i as int, h) || (open@.contains(h)
                    && next_to_reached_within(reachable@, i as int, h))),
        decreases reachable.len() - i,
    {
        let here = reachable[i];
        let ghost before = out@;
        if !hex_in(&out, here) {
            out.push(here);
            proof {
                assert forall|a: int, b: int| 0 <= a < b < out@.len() implies out@[a] != out@[b] by {
                    if b == out@.len() - 1 {
                        assert(before[a] == out@[a]);
                    }
                }
            }
        }
        let ghost old_goal = |h: AxialCoord|
            reached_within(reachable@, i as int, h) || (open@.contains(h) && next_to_reached_within(
                reachable@,
                i as int,
                h,
            ));
        assert forall|h: AxialCoord| out@.contains(h) <==> (old_goal(h) || h == here) by {
            if h == here && before.contains(here) {
                assert(out@ == before);
            }
        }
        let ns = here.neighbors();
        let mut k: usize = 0;
        while k < 6
            invariant
                k <= 6,
                ns@.len() == 6,
                forall|h: AxialCoord| ns@.contains(h) <==> are_neighbors(here, h),
                out@.no_duplicates(),
                forall|h: AxialCoord|
                    out@.contains(h) <==> (old_goal(h) || h == here || (open@.contains(h) && exists|j: int|
                        0 <= j < k && ns@[j] == h)),
            decreases 6 - k,
        {
            let n = ns[k];
            let ghost before_n = out@;
            if hex_in(open, n) && !hex_in(&out, n) {
                out.push(n);
                proof {
                    assert forall|a: int, b: int| 0 <= a < b < out@.len() implies out@[a] != out@[b] by {
                        if b == out@.len() - 1 {
                            assert(before_n[a] == out@[a]);
                        }
                    }
                }
            }
            proof {
                assert forall|h: AxialCoord|
                    out@.contains(h) <==> (old_goal(h) || h == here || (open@.contains(h) && exists|j: int|
                        0 <= j < k + 1 && ns@[j] == h)) by {
                    if h == n && open@.contains(h) {
                        assert(ns@[k as int] == h);
                    }
                    if open@.contains(h) && (exists|j: int| 0 <= j < k + 1 && ns@[j] == h) {
                        let j = choose|j: int| 0 <= j < k + 1 && ns@[j] == h;
                        if j == k && before_n.contains(n) {
                            assert(out@ == before_n);
                        }
                    }
                }
            }
            k = k + 1;
        }
        proof {
            assert forall|h: AxialCoord|
                out@.contains(h) <==> (reached_within(reachable@, i + 1, h) || (open@.contains(h)
                    && next_to_reached_within(reachable@, i + 1, h))) by {
                assert(reachable@[i as int] == here);
                if reached_within(reachable@, i as int, h) {
                    let j = choose|j: int| 0 <= j < i && #[trigger] reachable@[j] == h;
                    assert(0 <= j < i + 1 && reachable@[j] == h);
                }
                if next_to_reached_within(reachable@, i as int, h) {
                    let j = choose|j: int| 0 <= j < i && are_neighbors(#[trigger] reachable@[j], h);
                    assert(0 <= j < i + 1 && are_neighbors(reachable@[j], h));
                }
                if open@.contains(h) && (exists|j: int| 0 <= j < 6 && ns@[j] == h) {
                    let j = choose|j: int| 0 <= j < 6 && ns@[j] == h;
                    assert(ns@.contains(h));
                    assert(are_neighbors(reachable@[i as int], h));
                }
                if reached_within(reachable@, i + 1, h) {
                    let j = choose|j: int| 0 <= j < i + 1 && #[trigger] reachable@[j] == h;
                    if j < i {
                        assert(reached_within(reachable@, i as int, h));
                    }
                }
                if open@.contains(h) && next_to_reached_within(reachable@, i + 1, h) {
                    let j = choose|j: int| 0 <= j < i + 1 && are_neighbors(#[trigger] reachable@[j], h);
                    if j < i {
                        assert(next_to_reached_within(reachable@, i as int, h));
                    } else {
                        assert(ns@.contains(h));
                        let m = choose|m: int| 0 <= m < ns@.len() && ns@[m] == h;
                        assert(0 <= m < 6 && ns@[m] == h);
                    }
                }
            }
        }
        i = i + 1;
    }
    proof {
        assert forall|h: AxialCoord| out@.to_set().contains(h) == harvest_reach(true, reachable@, open@).contains(h) by {
            if reachable@.contains(h) {
                let j = choose|j: int| 0 <= j < reachable@.len() && reachable@[j] == h;
                assert(reached_within(reachable@, i as int, h));
            }
            if reached_within(reachable@, i as int, h) {
                let j = choose|j: int| 0 <= j < i && #[trigger] reachable@[j] == h;
                assert(reachable@.contains(h));
            }
        }
        assert(out@.to_set() =~= harvest_reach(true, reachable@, open@));
    }
    out
}

/// What lies at the hovered hex when the player clicks in move-and-attack mode.
#[derive(Clone, Copy, PartialEq, Eq, Structural, Debug)]
pub enum HoveredHex {
    /// No tile of the map is there.
    OffMap,
    /// A tile no one occupies.
    Empty,
    /// A tile occupied by `entity`, which is or is not of another faction than the
    /// player's.
    Occupied { entity: u64, enemy: bool },
}

/// What a click in move-and-attack mode sets out to do.
#[derive(Clone, Copy, PartialEq, Eq, Structural, Debug)]
pub enum ClickPlan {
    /// The click is not handled.
    Ignore,
    /// Move the selected character to the hovered hex, along a path if one exists.
    MoveToHex,
    /// Go after the enemy `target`.
    Engage(u64),
}

/// The plan for a click: nothing unless the selected character is the player's;
/// then an enemy on the hovered hex is engaged, an empty tile is moved to, and a
/// tile of one of the player's own characters or a hex off the map is ignored.
pub open spec fn click_plan(player_controls_selected: bool, hovered: HoveredHex) -> ClickPlan {
    if !player_controls_selected {
        ClickPlan::Ignore
    } else {
        match hovered {
            HoveredHex::OffMap => ClickPlan::Ignore,
            HoveredHex::Empty => ClickPlan::MoveToHex,
            HoveredHex::Occupied { entity, enemy } => if enemy {
                ClickPlan::Engage(entity)
            } else {
                ClickPlan::Ignore
            },
        }
    }
}

/// Plans a click in move-and-attack mode; the click is handled unless the plan is
/// to ignore it.
pub fn plan_move_and_attack_click(player_controls_selected: bool, hovered: HoveredHex) -> (p: ClickPlan)
    ensures
        p == click_plan(player_controls_selected, hovered),
{
    if !player_controls_selected {
        return ClickPlan::Ignore;
    }
    match hovered {
        HoveredHex::OffMap => ClickPlan::Ignore,
        HoveredHex::Empty => ClickPlan::MoveToHex,
        HoveredHex::Occupied { entity, enemy } => if enemy {
            ClickPlan::Engage(entity)
        } else {
            ClickPlan::Ignore
        },
    }
}

/// How the selected character goes after an enemy.
#[derive(Clone, Copy, PartialEq, Eq, Structural, Debug)]
pub enum Engagement {
    /// Attack from where it stands.
    AttackInPlace,
    /// Move along the path to a hex it can attack from, then attack if it can.
    MoveThenAttack,
    /// No hex to attack from can be reached: move next to the enemy.
    MoveAdjacent,
    /// Neither can be reached: stay.
    Stay,
}

/// The engagement given the length of the path to a hex from which the attack can
/// be made, if there is one, and whether a path next to the enemy was found.
pub open spec fn engagement(attack_path_len: Option<usize>, adjacent_path_found: bool) -> Engagement {
    match attack_path_len {
        Some(len) => if len == 0 {
            Engagement::AttackInPlace
        } else {
            Engagement::MoveThenAttack
        },
        None => if adjacent_path_found {
            Engagement::MoveAdjacent
        } else {
            Engagement::Stay
        },
    }
}

/// Decides how to go after an enemy once the paths are known.
pub fn plan_engagement(attack_path_len: Option<usize>, adjacent_path_found: bool) -> (e: Engagement)
    ensures
        e == engagement(attack_path_len, adjacent_path_found),
{
    match attack_path_len {
        Some(len) => if len == 0 {
            Engagement::AttackInPlace
        } else {
            Engagement::MoveThenAttack
        },
        None => if adjacent_path_found {
            Engagement::MoveAdjacent
        } else {
            Engagement::Stay
        },
    }
}

/// The absolute value of `x`.
pub open spec fn abs_int(x: int) -> int {
    if x < 0 {
        -x
    } else {
        x
    }
}

/// The number of steps between two hexes.
pub open spec fn hex_distance(a: AxialCoord, b: AxialCoord) -> int {
    (abs_int(b.q - a.q) + abs_int(b.r - a.r) + abs_int((b.q - a.q) + (b.r - a.r))) / 2
}

fn abs_i64(x: i64) -> (r: u64)
    requires
        x > i64::MIN,
    ensures
        r == abs_int(x as int),
{
    if x < 0 {
        (-x) as u64
    } else {
        x as u64
    }
}

impl AxialCoord {
    /// The number of steps to hex `other`.
    pub fn distance(&self, other: &AxialCoord) -> (d: u64)
        ensures
            d == hex_distance(*self, *other),
    {
        let dq: i64 = other.q as i64 - self.q as i64;
        let dr: i64 = other.r as i64 - self.r as i64;
        let a = abs_i64(dq);
        let b = abs_i64(dr);
        let c = abs_i64(dq + dr);
        (a + b + c) / 2
    }
}

/// A character as the computer players see it: its entity, its hex, whether it is
/// alive, and whether it is an enemy of the character that is deciding.
#[derive(Clone, Copy, PartialEq, Eq, Structural, Debug)]
pub struct Contender {
    pub entity: u64,
    pub position: AxialCoord,
    pub alive: bool,
    pub enemy: bool,
}

/// Whether `c` is a living enemy.
pub open spec fn is_target(c: Contender) -> bool {
    c.alive && c.enemy
}

/// Whether the `i`-th contender is the first living enemy at the least distance from
/// `from`.
pub open spec fn first_closest(from: AxialCoord, cs: Seq<Contender>, i: int) -> bool {
    &&& 0 <= i < cs.len()
    &&& is_target(cs[i])
    &&& forall|j: int| 0 <= j < cs.len() && is_target(#[trigger] cs[j]) ==> hex_distance(from, cs[i].position)
        <= hex_distance(from, cs[j].position)
    &&& forall|j: int| 0 <= j < i && is_target(#[trigger] cs[j]) ==> hex_distance(from, cs[j].position)
        > hex_distance(from, cs[i].position)
}

/// The living enemy closest to `from`, the first of them in the order given when
/// several are as close; none when there is no living enemy.
pub fn closest_enemy(from: AxialCoord, contenders: &Vec<Contender>) -> (r: Option<u64>)
    ensures
        r is None <==> (forall|j: int| 0 <= j < contenders@.len() ==> !is_target(#[trigger] contenders@[j])),
        r matches Some(e) ==> exists|i: int| first_closest(from, contenders@, i) && contenders@[i].entity == e,
{
    let mut best: Option<usize> = None;
    let mut best_d: u64 = 0;
    let mut i: usize = 0;
    while i < contenders.len()
        invariant
            i <= contenders@.len(),
            best is None <==> (forall|j: int| 0 <= j < i ==> !is_target(#[trigger] contenders@[j])),
            best matches Some(b) ==> {
                &&& b < i
                &&& is_target(contenders@[b as int])
                &&& best_d == hex_distance(from, contenders@[b as int].position)
                &&& forall|j: int| 0 <= j < i && is_target(#[trigger] contenders@[j]) ==> best_d <= hex_distance(
                    from,
                    contenders@[j].position,
                )
                &&& forall|j: int| 0 <= j < b && is_target(#[trigger] contenders@[j]) ==> hex_distance(
                    from,
                    contenders@[j].position,
                ) > best_d
            },
        decreases contenders.len() - i,
    {
        let c = contenders[i];
        if c.alive && c.enemy {
            let d = from.distance(&c.position);
            match best {
                None => {
                    best = Some(i);
                    best_d = d;
                },
                Some(_) => {
                    if d < best_d {
                        best = Some(i);
                        best_d = d;
                    }
                },
            }
        }
        i = i + 1;
    }
    match best {
        None => None,
        Some(b) => {
            proof {
                assert(first_closest(from, contenders@, b as int));
            }
            Some(contenders[b].entity)
        },
    }
}

/// Whether a character at `a` can attack one at `b`: they stand on the same or on
/// neighbouring hexes.
pub open spec fn within_striking_distance(a: AxialCoord, b: AxialCoord) -> bool {
    hex_distance(a, b) <= 1
}

/// Whether a character at `a` can attack one at `b` without moving.
pub fn can_strike(a: &AxialCoord, b: &AxialCoord) -> (r: bool)
    ensures
        r == within_striking_distance(*a, *b),
{
    a.distance(b) <= 1
}

/// A character as a faction's turn sees it: its entity, its faction, and whether it
/// is alive.
#[derive(Clone, Copy, PartialEq, Eq, Structural, Debug)]
pub struct FactionMember {
    pub entity: u64,
    pub faction: u64,
    pub alive: bool,
}

/// The entities of the living members of `faction`, in the order given.
pub open spec fn acting_members(members: Seq<FactionMember>, faction: u64) -> Seq<u64>
    decreases members.len(),
{
    if members.len() == 0 {
        Seq::empty()
    } else {
        let rest = acting_members(members.drop_last(), faction);
        let m = members.last();
        if m.faction == faction && m.alive {
            rest.push(m.entity)
        } else {
            rest
        }
    }
}

/// The characters that act in a computer-controlled faction's turn: its living
/// members, in the order given.
pub fn ai_actors(members: &Vec<FactionMember>, faction: u64) -> (r: Vec<u64>)
    ensures
        r@ == acting_members(members@, faction),
{
    let mut r: Vec<u64> = Vec::new();
    let mut i: usize = 0;
    while i < members.len()
        invariant
            i <= members@.len(),
            r@ == acting_members(members@.take(i as int), faction),
        decreases members.len() - i,
    {
        let m = members[i];
        proof {
            assert(members@.take(i + 1).drop_last() =~= members@.take(i as int));
        }
        if m.faction == faction && m.alive {
            r.push(m.entity);
        }
        i = i + 1;
    }
    proof {
        assert(members@.take(i as int) =~= members@);
    }
    r
}

/// Attacking in place happens exactly when the path to a hex the attack can be
/// made from is empty; any longer path means moving first; without such a path the
/// character moves next to the enemy if it can, and otherwise stays.
pub proof fn lemma_engagement_follows_paths(attack_path_len: Option<usize>, adjacent_path_found: bool)
    ensures
        (engagement(attack_path_len, adjacent_path_found) == Engagement::AttackInPlace) <==> attack_path_len
            == Some(0usize),
        (engagement(attack_path_len, adjacent_path_found) == Engagement::MoveThenAttack) <==> (attack_path_len
            matches Some(n) && n > 0),
        (engagement(attack_path_len, adjacent_path_found) == Engagement::MoveAdjacent) <==> (attack_path_len is None
            && adjacent_path_found),
        (engagement(attack_path_len, adjacent_path_found) == Engagement::Stay) <==> (attack_path_len is None
            && !adjacent_path_found),
{
}

} // verus!
