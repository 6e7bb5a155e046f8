use vstd::prelude::*;
use vstd::string::StrSliceExecFns;
use std::collections::HashMap;

use crate::layout::MAX_INPUT_POINTS;

verus! {

broadcast use vstd::std_specs::hash::group_hash_axioms;

/// A key as the event handling sees it.
pub enum KeyInput {
    Escape,
    /// A key that types text.
    Character(String),
    /// Any other key.
    Other,
}

/// Stage of a touch.
#[derive(Clone, Copy, Debug, PartialEq, Eq, Structural)]
pub enum TouchStage {
    Started,
    Moved,
    Ended,
    Cancelled,
}

/// A window event, with positions of type `P`.
pub enum WindowInput<P> {
    CloseRequested,
    RedrawRequested,
    Resized,
    /// A key went down (`pressed`) or up.
    Keyboard { key: KeyInput, pressed: bool },
    /// A mouse button went down (`pressed`) or up.
    MouseButton { pressed: bool },
    CursorMoved(P),
    Touch { id: u64, stage: TouchStage, location: P },
    Other,
}

/// What the application does after an event.
#[derive(Clone, Copy, Debug, PartialEq, Eq, Structural)]
pub enum EventResponse {
    /// Nothing beyond the state update.
    Continue,
    /// Leave the event loop.
    Exit,
    /// Run a simulation step, draw, and ask for the next redraw.
    Redraw,
    /// Reconfigure the surface for the new window size.
    Reconfigure,
    /// Reload the settings and rebuild the simulation.
    Reload,
}

/// The pointer and touch input, with positions of type `P`.
pub struct InputState<P> {
    pub mouse_pos: P,
    pub mouse_pressed: bool,
    pub touch_points: HashMap<u64, P>,
}

/// Abstract view of the input: the mouse position, whether a mouse button
/// is held, and the position of every touch in progress, by touch id.
pub struct InputView<P> {
    pub mouse_pos: P,
    pub mouse_pressed: bool,
    pub touches: Map<u64, P>,
}

impl<P> InputState<P> {
    pub open spec fn view(&self) -> InputView<P> {
        InputView {
            mouse_pos: self.mouse_pos,
            mouse_pressed: self.mouse_pressed,
            touches: self.touch_points@,
        }
    }
}

/// The key that reloads the settings: the single character `r`.
pub open spec fn is_reload_key(text: Seq<char>) -> bool {
    text.len() == 1 && text[0] == 'r'
}

/// How the application answers an event.
pub open spec fn spec_response<P>(event: WindowInput<P>) -> EventResponse {
    match event {
        WindowInput::CloseRequested => EventResponse::Exit,
        WindowInput::RedrawRequested => EventResponse::Redraw,
        WindowInput::Resized => EventResponse::Reconfigure,
        WindowInput::Keyboard { key, pressed } => {
            if !pressed {
                EventResponse::Continue
            } else {
                match key {
                    KeyInput::Escape => EventResponse::Exit,
                    KeyInput::Character(text) => {
                        if is_reload_key(text@) {
                            EventResponse::Reload
                        } else {
                            EventResponse::Continue
                        }
                    },
                    KeyInput::Other => EventResponse::Continue,
                }
            }
        },
        _ => EventResponse::Continue,
    }
}

/// How an event changes the input: a mouse button sets whether it is held,
/// the cursor sets the mouse position, a touch that starts or moves records
/// its position, a touch that ends is forgotten. Nothing else changes it;
/// a cancelled touch in particular stays where it was last seen.
pub open spec fn spec_next_input<P>(v: InputView<P>, event: WindowInput<P>) -> InputView<P> {
    match event {
        WindowInput::MouseButton { pressed } => InputView { mouse_pressed: pressed, ..v },
        WindowInput::CursorMoved(pos) => InputView { mouse_pos: pos, ..v },
        WindowInput::Touch { id, stage, location } => match stage {
            TouchStage::Started => InputView { touches: v.touches.insert(id, location), ..v },
            TouchStage::Moved => InputView { touches: v.touches.insert(id, location), ..v },
            TouchStage::Ended => InputView { touches: v.touches.remove(id), ..v },
            TouchStage::Cancelled => v,
        },
        _ => v,
    }
}

impl<P: Copy> InputState<P> {
    /// No button held and no touch, the mouse at `mouse_pos`; room is made
    /// for as many touches as there are input slots.
    pub fn new(mouse_pos: P) -> (r: Self)
        ensures
            r.view().mouse_pos == mouse_pos,
            !r.view().mouse_pressed,
            r.view().touches == Map::<u64, P>::empty(),
    {
        InputState {
            mouse_pos,
            mouse_pressed: false,
            touch_points: HashMap::with_capacity(MAX_INPUT_POINTS as usize),
        }
    }

    /// Updates the input for `event` and says how the application answers it.
    pub fn handle_event(&mut self, event: WindowInput<P>) -> (r: EventResponse)
        ensures
            final(self).view() == spec_next_input(old(self).view(), event),
            r == spec_response(event),
            r == EventResponse::Reload <==> (event matches WindowInput::Keyboard {
                key: KeyInput::Character(text),
                pressed,
            } && pressed && text@.len() == 1 && text@[0] == 'r'),
            r == EventResponse::Exit <==> (event is CloseRequested || (event matches WindowInput::Keyboard {
                key: KeyInput::Escape,
                pressed: true,
            })),
            r == EventResponse::Redraw <==> event is RedrawRequested,
            r == EventResponse::Reconfigure <==> event is Resized,
            event is MouseButton || event is CursorMoved || event is Touch || event is Other
                ==> r == EventResponse::Continue,
            event matches WindowInput::MouseButton { pressed } ==> final(self).mouse_pressed == pressed,
            !(event is MouseButton) ==> final(self).mouse_pressed == old(self).mouse_pressed,
            event matches WindowInput::CursorMoved(pos) ==> final(self).mouse_pos == pos,
            !(event is CursorMoved) ==> final(self).mouse_pos == old(self).mouse_pos,
            event matches WindowInput::Touch { id, stage: TouchStage::Started, location }
                ==> final(self).touch_points@ == old(self).touch_points@.insert(id, location),
            event matches WindowInput::Touch { id, stage: TouchStage::Moved, location }
                ==> final(self).touch_points@ == old(self).touch_points@.insert(id, location),
            event matches WindowInput::Touch { id, stage: TouchStage::Ended, location }
                ==> final(self).touch_points@ == old(self).touch_points@.remove(id),
            (!(event is Touch) || (event matches WindowInput::Touch {
                stage: TouchStage::Cancelled,
                ..
            })) ==> final(self).touch_points@ == old(self).touch_points@,
    {
        match event {
            WindowInput::CloseRequested => EventResponse::Exit,
            WindowInput::RedrawRequested => EventResponse::Redraw,
            WindowInput::Resized => EventResponse::Reconfigure,
            WindowInput::Keyboard { key, pressed } => {
                if !pressed {
                    EventResponse::Continue
                } else {
                    match key {
                        KeyInput::Escape => EventResponse::Exit,
                        KeyInput::Character(text) => {
                            let s = text.as_str();
                            if s.unicode_len() == 1 && s.get_char(0) == 'r' {
                                EventResponse::Reload
                            } else {
                                EventResponse::Continue
                            }
                        },
                        KeyInput::Other => EventResponse::Continue,
                    }
                }
            },
            WindowInput::MouseButton { pressed } => {
                self.mouse_pressed = pressed;
                EventResponse::Continue
            },
            WindowInput::CursorMoved(pos) => {
                self.mouse_pos = pos;
                EventResponse::Continue
            },
            WindowInput::Touch { id, stage, location } => {
                match stage {
                    TouchStage::Started | TouchStage::Moved => {
                        let _ = self.touch_points.insert(id, location);
                    },
                    TouchStage::Ended => {
                        let _ = self.touch_points.remove(&id);
                    },
                    TouchStage::Cancelled => {},
                }
                EventResponse::Continue
            },
            WindowInput::Other => EventResponse::Continue,
        }
    }
}

/// The touch positions in `list`, after the mouse position if a button is
/// held, are those of the touches `ids`, in that order.
pub open spec fn lists_touches_in_order<P>(list: Seq<P>, v: InputView<P>, ids: Seq<u64>) -> bool {
    let offset: int = if v.mouse_pressed { 1 } else { 0 };
    &&& ids.no_duplicates()
    &&& ids.to_set() == v.touches.dom()
    &&& list.len() == offset + ids.len()
    &&& forall|i: int| 0 <= i < ids.len() ==> list[offset + i] == v.touches[#[trigger] ids[i]]
}

/// `list` holds the positions that push the points: the mouse position
/// first while a button is held, then the position of every touch in
/// progress, each once, in some order of the touch ids.
pub open spec fn is_input_list<P>(list: Seq<P>, v: InputView<P>) -> bool {
    &&& v.mouse_pressed ==> list.len() > 0 && list[0] == v.mouse_pos
    &&& exists|ids: Seq<u64>| lists_touches_in_order(list, v, ids)
}

impl<P: Copy> InputState<P> {
    /// The positions that push the points in the next update.
    pub fn active_inputs(&self) -> (r: Vec<P>)
        ensures
            is_input_list(r@, self.view()),
    {
        let mut list: Vec<P> = Vec::new();
        if self.mouse_pressed {
            list.push(self.mouse_pos);
        }
        let offset: usize = list.len();
        let ghost m = self.touch_points@;
        // the touch ids in the order their positions were listed
        let ghost mut ids: Seq<u64> = Seq::empty();
        // every (id, position) pair of the map, in the order the iterator gives them
        let ghost pairs = vstd::std_specs::iter::IteratorSpec::remaining(
            &vstd::std_specs::hash::spec_hash_map_iter(&self.touch_points),
        );
        for entry in it: self.touch_points.iter()
            invariant
                it.seq() == pairs,
                offset == (if self.mouse_pressed { 1int } else { 0int }),
                m == self.touch_points@,
                self.mouse_pressed ==> list@[0] == self.mouse_pos,
                list@.len() == offset + ids.len(),
                ids.len() == it.index(),
                forall|i: int| 0 <= i < it.index() ==> ids[i] == *it.seq()[i].0,
                forall|i: int| 0 <= i < ids.len() ==> list@[offset + i] == m[#[trigger] ids[i]],
        {
            let (id, pos) = entry;
            proof {
                ids = ids.push(*id);
            }
            list.push(*pos);
        }
        proof {
            assert(ids.len() == pairs.len());
            assert(ids.no_duplicates()) by {
                assert forall|i: int, j: int| 0 <= i < ids.len() && 0 <= j < ids.len() && i != j
                    implies ids[i] != ids[j] by {
                    if ids[i] == ids[j] {
                        assert(pairs[i] == pairs[j]);
                    }
                }
            }
            assert forall|k: u64| #[trigger] ids.to_set().contains(k) <==> m.dom().contains(k) by {
                if m.dom().contains(k) {
                    assert(pairs.contains((&k, &m[k])));
                    let i = choose|i: int| 0 <= i < pairs.len() && pairs[i] == (&k, &m[k]);
                    assert(ids[i] == k);
                }
                if ids.to_set().contains(k) {
                    let i = choose|i: int| 0 <= i < ids.len() && ids[i] == k;
                    assert(m.contains_key(*pairs[i].0));
                }
            }
            assert(ids.to_set() =~= m.dom());
            assert(lists_touches_in_order(list@, self.view(), ids));
        }
        list
    }
}

/// The answer to an event: the application exits on a close request or a
/// press of Escape, redraws on a redraw request, reconfigures on a resize,
/// and reloads only on a press of the key typing exactly `r`; pointer and
/// touch events, key releases and other keys only update the input.
pub proof fn lemma_event_responses<P>(event: WindowInput<P>)
    ensures
        spec_response(event) == EventResponse::Reload <==> (event matches WindowInput::Keyboard {
            key: KeyInput::Character(text),
            pressed,
        } && pressed && text@.len() == 1 && text@[0] == 'r'),
        spec_response(event) == EventResponse::Exit <==> (event is CloseRequested
            || (event matches WindowInput::Keyboard { key: KeyInput::Escape, pressed: true })),
        spec_response(event) == EventResponse::Redraw <==> event is RedrawRequested,
        spec_response(event) == EventResponse::Reconfigure <==> event is Resized,
        event is MouseButton || event is CursorMoved || event is Touch || event is Other
            ==> spec_response(event) == EventResponse::Continue,
        event matches WindowInput::Keyboard { pressed, .. } && !pressed ==> spec_response(event)
            == EventResponse::Continue,
{
}

/// A list of the input holds one position per touch in progress, plus the
/// mouse position while a button is held.
pub proof fn lemma_input_list_len<P>(list: Seq<P>, v: InputView<P>)
    requires
        is_input_list(list, v),
    ensures
        v.touches.dom().finite(),
        list.len() == (if v.mouse_pressed { 1int } else { 0int }) + v.touches.dom().len(),
{
    let ids = choose|ids: Seq<u64>| lists_touches_in_order(list, v, ids);
    ids.unique_seq_to_set();
}

/// A touch that starts and then ends leaves the other touches as they
/// were, and is itself gone.
pub proof fn lemma_touch_start_then_end<P>(v: InputView<P>, id: u64, at: P, last: P)
    ensures
        ({
            let started = spec_next_input(v, WindowInput::Touch { id, stage: TouchStage::Started, location: at });
            let ended = spec_next_input(started, WindowInput::Touch { id, stage: TouchStage::Ended, location: last });
            &&& ended.touches == v.touches.remove(id)
            &&& ended.mouse_pos == v.mouse_pos
            &&& ended.mouse_pressed == v.mouse_pressed
        }),
{
    let started = spec_next_input(v, WindowInput::Touch { id, stage: TouchStage::Started, location: at });
    assert(started.touches.insert(id, at).remove(id) =~= v.touches.remove(id));
    assert(started.touches.remove(id) =~= v.touches.remove(id));
}

/// A touch's recorded position is where it was last seen starting or moving.
pub proof fn lemma_touch_moves_to_latest<P>(v: InputView<P>, id: u64, first: P, second: P)
    ensures
        ({
            let started = spec_next_input(v, WindowInput::Touch { id, stage: TouchStage::Started, location: first });
            let moved = spec_next_input(started, WindowInput::Touch { id, stage: TouchStage::Moved, location: second });
            &&& moved.touches.contains_key(id)
            &&& moved.touches[id] == second
            &&& moved.touches.remove(id) == v.touches.remove(id)
        }),
{
    let started = spec_next_input(v, WindowInput::Touch { id, stage: TouchStage::Started, location: first });
    assert(started.touches.insert(id, second).remove(id) =~= v.touches.remove(id));
}

/// The mouse pushes the points from a button press until the next release.
pub proof fn lemma_press_then_release<P>(v: InputView<P>)
    ensures
        spec_next_input(v, WindowInput::MouseButton { pressed: true }).mouse_pressed,
        !spec_next_input(
            spec_next_input(v, WindowInput::MouseButton { pressed: true }),
            WindowInput::MouseButton { pressed: false },
        ).mouse_pressed,
        spec_next_input(
            spec_next_input(v, WindowInput::MouseButton { pressed: true }),
            WindowInput::MouseButton { pressed: false },
        ).touches == v.touches,
{
}

} // verus!
