use vstd::prelude::*;

verus! {

/// Layout direction of the children of a widget
#[derive(Debug, Clone, Copy, PartialEq, Eq, Structural)]
pub enum Direction {
    Row,
    Column,
}

impl Direction {
    /// Axis along which the children are laid out: 0 is x, 1 is y
    pub fn main_axis(&self) -> (axis: usize)
        ensures
            axis == match *self {
                Direction::Row => 0usize,
                Direction::Column => 1usize,
            },
    {
        match self {
            Direction::Row => 0,
            Direction::Column => 1,
        }
    }

    /// The other axis
    pub fn cross_axis(&self) -> (axis: usize)
        ensures
            axis == match *self {
                Direction::Row => 1usize,
                Direction::Column => 0usize,
            },
    {
        match self {
            Direction::Row => 1,
            Direction::Column => 0,
        }
    }
}

/// The main and the cross axis of a direction are the two axes, one each.
pub proof fn axes_are_distinct(direction: Direction)
    ensures
        ({
            let main = match direction {
                Direction::Row => 0usize,
                Direction::Column => 1usize,
            };
            let cross = match direction {
                Direction::Row => 1usize,
                Direction::Column => 0usize,
            };
            main != cross && main + cross == 1
        }),
{
}

/// Alignment of children along an axis
#[derive(Debug, Clone, Copy, PartialEq, Eq, Structural)]
pub enum Alignment {
    Start,
    Center,
    End,
}

/// Index of the root widget
pub fn root_index() -> (index: usize)
    ensures
        index == 0,
{
    0
}

/// Hash of a label by std's default hasher, as `DefaultHasher` computes it from a fresh state
pub uninterp spec fn label_hash(label: Seq<char>) -> u64;

/// Hash of a label and then the little-endian bytes of a parent id by std's default hasher, from
/// a fresh state
pub uninterp spec fn child_label_hash(parent: u64, label: Seq<char>) -> u64;

/// `BuildHasher::hash_one` of `label` with `BuildHasherDefault<DefaultHasher>`: a fresh
/// `DefaultHasher` (all of which are the same) fed the label, then finished. The result is a
/// function of the label, named here; its value is not stated.
#[verifier::external_body]
fn hash_label(label: &str) -> (hash: u64)
    ensures
        hash == label_hash(label@),
{
    std::hash::BuildHasher::hash_one(
        &std::hash::BuildHasherDefault::<std::hash::DefaultHasher>::default(),
        label,
    )
}

/// `BuildHasher::hash_one` of `(label, parent.to_le())` with `BuildHasherDefault<DefaultHasher>`:
/// a fresh `DefaultHasher` fed the label and then the parent, then finished. A `u64` is fed as
/// its bytes in the machine's order, so the parent is given in little-endian order: the hasher
/// then sees its little-endian bytes on every machine, and the result is a function of the label
/// and the parent alone, named here; its value is not stated.
#[verifier::external_body]
fn hash_child_label(parent: u64, label: &str) -> (hash: u64)
    ensures
        hash == child_label_hash(parent, label@),
{
    std::hash::BuildHasher::hash_one(
        &std::hash::BuildHasherDefault::<std::hash::DefaultHasher>::default(),
        (label, parent.to_le()),
    )
}

/// Identity of a UI element
#[derive(Clone, Copy, Debug, Eq, PartialEq, Structural)]
pub struct UiID {
    id: u64,
}

impl UiID {
    pub closed spec fn spec_id(self) -> u64 {
        self.id
    }

    /// The id that no element has
    pub fn cleared() -> (ui_id: Self)
        ensures
            ui_id.spec_id() == 0,
    {
        let id: u64 = 0;
        Self { id }
    }

    pub fn new(label: &str) -> (ui_id: Self)
        ensures
            ui_id.spec_id() == label_hash(label@),
    {
        let id = hash_label(label);
        Self { id }
    }

    pub fn new_child(parent: u64, label: &str) -> (ui_id: Self)
        ensures
            ui_id.spec_id() == child_label_hash(parent, label@),
    {
        let id = hash_child_label(parent, label);
        Self { id }
    }
}

/// Elements made from equal labels have the same id.
pub proof fn ids_follow_labels(a: UiID, label_a: Seq<char>, b: UiID, label_b: Seq<char>)
    requires
        a.spec_id() == label_hash(label_a),
        b.spec_id() == label_hash(label_b),
        label_a == label_b,
    ensures
        a == b,
{
}

/// Which element the pointer is over and which one is held: the interaction state of an
/// immediate mode UI, elements named by their labels.
pub struct WidgetInteraction {
    hot_this_frame: String,
    hot_last_frame: String,
    active: String,
}

impl WidgetInteraction {
    /// Element under the pointer this frame
    pub closed spec fn hot_now(self) -> Seq<char> {
        self.hot_this_frame@
    }

    /// Element under the pointer last frame
    pub closed spec fn hot_before(self) -> Seq<char> {
        self.hot_last_frame@
    }

    /// Element being pressed
    pub closed spec fn active_id(self) -> Seq<char> {
        self.active@
    }

    pub fn new() -> (state: Self)
        ensures
            state.hot_now() == Seq::<char>::empty(),
            state.hot_before() == Seq::<char>::empty(),
            state.active_id() == Seq::<char>::empty(),
    {
        Self { hot_this_frame: String::new(), hot_last_frame: String::new(), active: String::new() }
    }

    // active
    pub fn set_active(&mut self, id: String)
        ensures
            final(self).active_id() == id@,
            final(self).hot_now() == old(self).hot_now(),
            final(self).hot_before() == old(self).hot_before(),
    {
        self.active = id;
    }

    pub fn clear_active(&mut self)
        ensures
            final(self).active_id() == Seq::<char>::empty(),
            final(self).hot_now() == old(self).hot_now(),
            final(self).hot_before() == old(self).hot_before(),
    {
        self.active = String::new();
    }

    pub fn check_active(&self, id: &str) -> (is_active: bool)
        ensures
            is_active == (self.active_id() == id@),
    {
        let id = id.to_owned();
        self.active == id
    }

    // hot
    pub fn set_hot_this_frame(&mut self, id: String)
        ensures
            final(self).hot_now() == id@,
            final(self).hot_before() == old(self).hot_before(),
            final(self).active_id() == old(self).active_id(),
    {
        self.hot_this_frame = id;
    }

    /// Hot: under the pointer both last frame and this frame
    pub fn check_hot(&self, id: &str) -> (is_hot: bool)
        ensures
            is_hot == (self.hot_before() == id@ && self.hot_now() == id@),
    {
        let id = id.to_owned();
        self.hot_last_frame == id && self.hot_this_frame == id
    }

    pub fn check_last_hot(&self, id: &str) -> (was_hot: bool)
        ensures
            was_hot == (self.hot_before() == id@),
    {
        let id = id.to_owned();
        self.hot_last_frame == id
    }

    /// Ends a frame: a released mouse button releases the active element, and what was hot
    /// this frame becomes what was hot last frame.
    pub fn end_frame(&mut self, mouse_released: bool)
        ensures
            end_frame_step(*old(self), mouse_released, *final(self)),
    {
        if mouse_released {
            self.clear_active();
        }
        self.hot_last_frame = self.hot_this_frame.clone();
        self.hot_this_frame = String::new();
    }

    /// Interaction of a clickable element under the pointer or not: it becomes hot when under
    /// the pointer, active when pressed while hot, and is clicked when released while hot and
    /// active.
    pub fn clickable(&mut self, id: &str, inside: bool, mouse_up: bool, mouse_down: bool) -> (clicked:
        bool)
        ensures
            clickable_step(*old(self), id@, inside, mouse_up, mouse_down, *final(self), clicked),
    {
        let mut clicked = false;
        if inside {
            self.set_hot_this_frame(id.to_owned());
            if self.check_hot(id) {
                if self.check_active(id) && mouse_up {
                    clicked = true;
                } else if mouse_down {
                    self.set_active(id.to_owned());
                }
            }
        }
        clicked
    }

    /// Interaction of a slider under the pointer or not: it becomes hot when under the
    /// pointer and active when pressed while hot; whether its value follows the pointer is
    /// returned.
    pub fn slider(&mut self, id: &str, inside: bool, mouse_down: bool) -> (dragging: bool)
        ensures
            dragging == (inside && old(self).hot_before() == id@ && old(self).active_id() == id@),
            final(self).hot_now() == if inside {
                id@
            } else {
                old(self).hot_now()
            },
            final(self).hot_before() == old(self).hot_before(),
            final(self).active_id() == if inside && old(self).hot_before() == id@
                && old(self).active_id() != id@ && mouse_down {
                id@
            } else {
                old(self).active_id()
            },
    {
        let mut dragging = false;
        if inside {
            self.set_hot_this_frame(id.to_owned());
            if self.check_hot(id) {
                if self.check_active(id) {
                    dragging = true;
                } else if mouse_down {
                    self.set_active(id.to_owned());
                }
            }
        }
        dragging
    }
}

/// The end of a frame, from `before` to `after`
pub open spec fn end_frame_step(before: WidgetInteraction, mouse_released: bool, after: WidgetInteraction) -> bool {
    &&& after.active_id() == if mouse_released {
        Seq::<char>::empty()
    } else {
        before.active_id()
    }
    &&& after.hot_before() == before.hot_now()
    &&& after.hot_now() == Seq::<char>::empty()
}

/// One frame of clickable element `id`, from `before` to `after`, `clicked` being the result
pub open spec fn clickable_step(
    before: WidgetInteraction,
    id: Seq<char>,
    inside: bool,
    mouse_up: bool,
    mouse_down: bool,
    after: WidgetInteraction,
    clicked: bool,
) -> bool {
    let hot = inside && before.hot_before() == id;
    &&& clicked == (hot && before.active_id() == id && mouse_up)
    &&& after.hot_now() == if inside {
        id
    } else {
        before.hot_now()
    }
    &&& after.hot_before() == before.hot_before()
    &&& after.active_id() == if hot && !(before.active_id() == id && mouse_up) && mouse_down {
        id
    } else {
        before.active_id()
    }
}

/// An element under the pointer for three frames, pressed in the second and released in the
/// third, is clicked in the third and only then.
pub proof fn hover_press_release_clicks(
    id: Seq<char>,
    s0: WidgetInteraction,
    s1: WidgetInteraction,
    c1: bool,
    e1: WidgetInteraction,
    s2: WidgetInteraction,
    c2: bool,
    e2: WidgetInteraction,
    s3: WidgetInteraction,
    c3: bool,
)
    requires
        s0.active_id() != id,
        clickable_step(s0, id, true, false, false, s1, c1),
        end_frame_step(s1, false, e1),
        clickable_step(e1, id, true, false, true, s2, c2),
        end_frame_step(s2, false, e2),
        clickable_step(e2, id, true, true, false, s3, c3),
    ensures
        !c1,
        !c2,
        c3,
{
}

/// Hot and active element of an immediate mode UI whose elements are named by their ids
pub struct ButtonState {
    hot: UiID,
    active: UiID,
}

impl ButtonState {
    pub closed spec fn hot_id(self) -> UiID {
        self.hot
    }

    pub closed spec fn active_id(self) -> UiID {
        self.active
    }

    pub fn new() -> (state: Self)
        ensures
            state.hot_id().spec_id() == 0,
            state.active_id().spec_id() == 0,
    {
        Self { hot: UiID::cleared(), active: UiID::cleared() }
    }

    pub fn check_hot(&self, id: UiID) -> (is_hot: bool)
        ensures
            is_hot == (self.hot_id() == id),
    {
        self.hot == id
    }

    pub fn check_active(&self, id: UiID) -> (is_active: bool)
        ensures
            is_active == (self.active_id() == id),
    {
        self.active == id
    }

    /// One frame of a button: released while active it is clicked if still hot, and stops
    /// being active; pressed while hot it becomes active; it is hot while under the pointer.
    pub fn button(&mut self, id: UiID, inside: bool, mouse_up: bool, mouse_down: bool) -> (clicked:
        bool)
        ensures
            button_step(*old(self), id, inside, mouse_up, mouse_down, *final(self), clicked),
    {
        let mut result = false;

        // active
        if self.check_active(id) && mouse_up {
            if self.check_hot(id) {
                result = true;
            }
            self.active = UiID::cleared();
        } else if self.check_hot(id) && mouse_down {
            self.active = id;
        }
        if inside {
            self.hot = id;
        } else if self.check_hot(id) {
            self.hot = UiID::cleared();
        }
        result
    }
}

/// One frame of button `id`: from `before` to `after`, `clicked` being the result.
pub open spec fn button_step(
    before: ButtonState,
    id: UiID,
    inside: bool,
    mouse_up: bool,
    mouse_down: bool,
    after: ButtonState,
    clicked: bool,
) -> bool {
    let released = before.active_id() == id && mouse_up;
    &&& clicked == (released && before.hot_id() == id)
    &&& after.active_id().spec_id() == if released {
        0
    } else if before.hot_id() == id && mouse_down {
        id.spec_id()
    } else {
        before.active_id().spec_id()
    }
    &&& after.hot_id().spec_id() == if inside {
        id.spec_id()
    } else if before.hot_id() == id {
        0
    } else {
        before.hot_id().spec_id()
    }
}

/// A button is clicked only after it was pressed: a click needs it active and hot
/// beforehand, and leaves it inactive.
pub proof fn click_needs_press(
    before: ButtonState,
    id: UiID,
    inside: bool,
    mouse_up: bool,
    mouse_down: bool,
    after: ButtonState,
)
    requires
        button_step(before, id, inside, mouse_up, mouse_down, after, true),
    ensures
        before.active_id() == id,
        before.hot_id() == id,
        mouse_up,
        after.active_id().spec_id() == 0,
{
}

/// Pressing a button under the pointer and releasing it there on the next frame clicks it.
pub proof fn press_then_release_clicks(
    s0: ButtonState,
    id: UiID,
    s1: ButtonState,
    c1: bool,
    s2: ButtonState,
    c2: bool,
)
    requires
        s0.hot_id() == id,
        s0.active_id() != id,
        button_step(s0, id, true, false, true, s1, c1),
        button_step(s1, id, true, true, false, s2, c2),
    ensures
        !c1,
        c2,
        s2.active_id().spec_id() == 0,
{
    lemma_ids_equal(s1.active_id(), id);
    lemma_ids_equal(s1.hot_id(), id);
}

/// Two ids are equal when their values are.
proof fn lemma_ids_equal(a: UiID, b: UiID)
    requires
        a.spec_id() == b.spec_id(),
    ensures
        a == b,
{
}

/// The widgets built in a frame, as a tree by index: each widget's label, parent and children.
/// Widget 0 is the root, which is its own parent.
pub struct WidgetTree {
    labels: Vec<String>,
    parents: Vec<usize>,
    children: Vec<Vec<usize>>,
}

impl WidgetTree {
    /// Label of each widget
    pub closed spec fn label_list(self) -> Seq<Seq<char>> {
        Seq::new(self.labels@.len(), |i: int| self.labels@[i]@)
    }

    /// Parent of each widget
    pub closed spec fn parent_indices(self) -> Seq<usize> {
        self.parents@
    }

    /// Children of each widget, in the order they were created
    pub closed spec fn child_lists(self) -> Seq<Seq<usize>> {
        Seq::new(self.children@.len(), |i: int| self.children@[i]@)
    }

    /// Number of widgets
    pub closed spec fn size(self) -> nat {
        self.parents@.len()
    }

    /// One label, parent and child list per widget; the root is its own parent and every other
    /// widget comes after its parent; a widget's children are the widgets whose parent it is,
    /// in increasing order
    pub closed spec fn wf(self) -> bool {
        let n = self.parents@.len();
        &&& self.labels@.len() == n
        &&& self.children@.len() == n
        &&& n >= 1
        &&& self.parents@[0] == 0
        &&& forall|i: int| 0 < i < n ==> #[trigger] self.parents@[i] < i
        &&& forall|i: int, k: int|
            0 <= i < n && 0 <= k < self.children@[i]@.len() ==> {
                let c = #[trigger] self.children@[i]@[k];
                &&& 0 < c < n
                &&& self.parents@[c as int] == i
            }
        &&& forall|i: int, a: int, b: int|
            0 <= i < n && 0 <= a < b < self.children@[i]@.len() ==> #[trigger] self.children@[i]@[a]
                < #[trigger] self.children@[i]@[b]
        &&& forall|j: int| 0 < j < n ==> self.children@[#[trigger] self.parents@[j] as int]@.contains(j as usize)
    }

    /// A tree of only the root
    pub fn new(root_label: String) -> (tree: Self)
        ensures
            tree.wf(),
            tree.size() == 1,
            tree.label_list() == seq![root_label@],
            tree.parent_indices() == seq![0usize],
            tree.child_lists() == seq![Seq::<usize>::empty()],
    {
        let tree = WidgetTree {
            labels: vec![root_label],
            parents: vec![0],
            children: vec![Vec::new()],
        };
        assert(tree.label_list() == seq![root_label@]);
        assert(tree.child_lists() == seq![Seq::<usize>::empty()]);
        tree
    }

    pub fn len(&self) -> (n: usize)
        requires
            self.wf(),
        ensures
            n == self.size(),
    {
        self.parents.len()
    }

    /// Adds a widget under `parent` and returns its index: the next one
    pub fn create_widget(&mut self, label: String, parent: usize) -> (index: usize)
        requires
            old(self).wf(),
            parent < old(self).size(),
        ensures
            final(self).wf(),
            index == old(self).size(),
            final(self).size() == old(self).size() + 1,
            final(self).label_list() == old(self).label_list().push(label@),
            final(self).parent_indices() == old(self).parent_indices().push(parent),
            final(self).child_lists() == old(self).child_lists().update(
                parent as int,
                old(self).child_lists()[parent as int].push(index),
            ).push(Seq::<usize>::empty()),
    {
        let index = self.parents.len();
        let ghost old_tree = *self;
        let mut siblings = self.children[parent].clone();
        siblings.push(index);
        self.children.set(parent, siblings);
        self.children.push(Vec::new());
        self.parents.push(parent);
        self.labels.push(label);
        proof {
            let n = index as int + 1;
            assert(self.label_list() == old_tree.label_list().push(label@));
            assert(self.child_lists() == old_tree.child_lists().update(
                parent as int,
                old_tree.child_lists()[parent as int].push(index),
            ).push(Seq::<usize>::empty()));
            assert forall|i: int, k: int|
                0 <= i < n && 0 <= k < self.children@[i]@.len() implies {
                    let c = #[trigger] self.children@[i]@[k];
                    &&& 0 < c < n
                    &&& self.parents@[c as int] == i
                } by {
                if i == parent && k == self.children@[i]@.len() - 1 {
                } else if i < index {
                    assert(self.children@[i]@[k] == old_tree.children@[i]@[k]);
                }
            }
            assert forall|i: int, a: int, b: int|
                0 <= i < n && 0 <= a < b < self.children@[i]@.len() implies #[trigger] self.children@[i]@[a]
                    < #[trigger] self.children@[i]@[b] by {
                if i == parent && b == self.children@[i]@.len() - 1 {
                    assert(self.children@[i]@[a] == old_tree.children@[i]@[a]);
                    assert(old_tree.children@[i]@[a] < index);
                } else if i < index {
                    assert(self.children@[i]@[a] == old_tree.children@[i]@[a]);
                    assert(self.children@[i]@[b] == old_tree.children@[i]@[b]);
                }
            }
            assert forall|j: int| 0 < j < n implies self.children@[#[trigger] self.parents@[j] as int]@.contains(
                j as usize,
            ) by {
                if j == index {
                    assert(self.children@[parent as int]@.last() == index);
                } else {
                    let p = old_tree.parents@[j] as int;
                    assert(old_tree.children@[p]@.contains(j as usize));
                    let k = choose|k: int| 0 <= k < old_tree.children@[p]@.len() && old_tree.children@[p]@[k] == j as usize;
                    assert(self.children@[p]@[k] == j as usize);
                }
            }
        }
        index
    }

    /// Parent of a widget
    pub fn parent_of(&self, index: usize) -> (parent: usize)
        requires
            self.wf(),
            index < self.size(),
        ensures
            parent == self.parent_indices()[index as int],
    {
        self.parents[index]
    }

    /// Children of a widget, in the order they were created
    pub fn children_of(&self, index: usize) -> (children: &Vec<usize>)
        requires
            self.wf(),
            index < self.size(),
        ensures
            children@ == self.child_lists()[index as int],
    {
        &self.children[index]
    }

    /// The first widget with the label, if any
    pub fn find_label(&self, label: &str) -> (found: Option<usize>)
        requires
            self.wf(),
        ensures
            match found {
                Some(i) => i < self.size() && self.label_list()[i as int] == label@ && forall|j: int|
                    0 <= j < i ==> self.label_list()[j] != label@,
                None => forall|j: int| 0 <= j < self.size() ==> self.label_list()[j] != label@,
            },
    {
        let wanted = label.to_owned();
        let mut i: usize = 0;
        while i < self.labels.len()
            invariant
                self.wf(),
                wanted@ == label@,
                i <= self.size(),
                forall|j: int| 0 <= j < i ==> self.label_list()[j] != label@,
            decreases self.size() - i,
        {
            if self.labels[i] == wanted {
                return Some(i);
            }
            i += 1;
        }
        None
    }
}

/// In a widget tree every widget but the root comes after its parent and is one of its
/// parent's children, and every child of a widget has that widget as its parent.
pub proof fn widgets_follow_their_parents(tree: WidgetTree, i: int, k: int)
    requires
        tree.wf(),
        0 <= i < tree.size(),
    ensures
        i > 0 ==> tree.parent_indices()[i] < i && tree.child_lists()[tree.parent_indices()[i] as int].contains(
            i as usize,
        ),
        0 <= k < tree.child_lists()[i].len() ==> tree.parent_indices()[tree.child_lists()[i][k] as int]
            == i,
{
    if i > 0 {
        assert(tree.parents@[i] < i);
        assert(tree.children@[tree.parents@[i] as int]@.contains(i as usize));
    }
    if 0 <= k < tree.child_lists()[i].len() {
        let c = tree.children@[i]@[k];
        assert(tree.parents@[c as int] == i);
    }
}

} // verus!
