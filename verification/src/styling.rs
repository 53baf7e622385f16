//! What a processing cycle asks of the windowing side about the look of windows: which
//! windows are to be made fit to be tiles, and which floating windows are to be given
//! the opacity of the tiles.
//!
//! A window is made fit to be a tile whenever the tiler sends its tile to its place:
//! the new tile and the tiles that made room for it when a window is added; every tile
//! after a resize, after a change of the opacity or the margins, and after a change of
//! the display. A move, a removal and a recalculation leave the look of windows alone.

use vstd::prelude::*;
use crate::arrange::contains_id;
use crate::commands::{admits, noted, QueuedCommand, TilerCommand};
use crate::dispatch::Trace;
use crate::geometry::Display;
use crate::layout::{find_tile, manages, tile_index, ManagedTile};
use crate::model::{AddOutcome, TilerState};
use crate::tiler::RibbonTiler;

verus! {

/// The opacity of a window that hides all that lies behind it.
pub const OPAQUE: u8 = 255;

/// Whether a window of this opacity lets through what lies behind it. Only such a
/// window needs to be layered.
pub fn is_translucent(opacity: u8) -> (b: bool)
    ensures
        b == (opacity < OPAQUE),
{
    opacity < OPAQUE
}

/// Which tiles a command has the windowing side make fit to be tiles.
#[derive(Clone, Copy, Debug, PartialEq, Eq, Structural)]
pub enum Preparing {
    /// None.
    NoTile,
    /// The tile of the window that the command names, and the tiles of its row that
    /// start at or right of its end.
    Newcomers,
    /// Every tile.
    EveryTile,
}

/// Which floating windows a command has the windowing side give the tiles' opacity.
#[derive(Clone, Copy, Debug, PartialEq, Eq, Structural)]
pub enum Tinting {
    /// None.
    NoWindow,
    /// The window that the command names.
    Newcomer,
    /// Every floating window.
    EveryWindow,
}

/// What a command asks about the look of windows, as far as the state before it tells.
#[derive(Clone, Copy, Debug, PartialEq, Eq, Structural)]
pub struct StylePlan {
    pub preparing: Preparing,
    pub tinting: Tinting,
}

/// The windows whose look is to be changed, as plain values.
pub struct Styling {
    /// The windows to make fit to be tiles.
    pub prepared: Seq<i64>,
    /// The floating windows to give the opacity of the tiles.
    pub tinted: Seq<i64>,
}

/// The windows whose look the windowing side is to change.
pub struct StyleWork {
    /// The windows to make fit to be tiles, with the opacity that the tiles have.
    pub prepared: Vec<i64>,
    /// The floating windows to give the opacity that the tiles have.
    pub tinted: Vec<i64>,
}

impl View for StyleWork {
    type V = Styling;

    open spec fn view(&self) -> Styling {
        Styling { prepared: self.prepared@, tinted: self.tinted@ }
    }
}

impl Styling {
    /// No window.
    pub open spec fn none() -> Styling {
        Styling { prepared: Seq::empty(), tinted: Seq::empty() }
    }

    /// The windows of this, then those of `next`.
    pub open spec fn and(self, next: Styling) -> Styling {
        Styling { prepared: self.prepared + next.prepared, tinted: self.tinted + next.tinted }
    }
}

impl StyleWork {
    /// No window.
    pub fn none() -> (work: StyleWork)
        ensures
            work@ == Styling::none(),
    {
        let work = StyleWork { prepared: Vec::new(), tinted: Vec::new() };
        proof {
            assert(work.prepared@ =~= Seq::empty());
            assert(work.tinted@ =~= Seq::empty());
        }
        work
    }

    /// Adds the windows of `next` behind those that are here.
    pub fn take(&mut self, next: StyleWork)
        ensures
            final(self)@ == old(self)@.and(next@),
    {
        let mut next = next;
        self.prepared.append(&mut next.prepared);
        self.tinted.append(&mut next.tinted);
    }
}

/// The ids of the tiles, in their order.
pub open spec fn ids_of(tiles: Seq<ManagedTile>) -> Seq<i64> {
    Seq::new(tiles.len(), |i: int| tiles[i].id)
}

/// The ids of the tiles, in their order.
pub fn tile_ids(tiles: &Vec<ManagedTile>) -> (ids: Vec<i64>)
    ensures
        ids@ == ids_of(tiles@),
{
    let mut ids: Vec<i64> = Vec::new();
    let mut i: usize = 0;
    while i < tiles.len()
        invariant
            i <= tiles.len(),
            ids@.len() == i,
            forall|k: int| 0 <= k < i ==> #[trigger] ids@[k] == tiles@[k].id,
        decreases tiles.len() - i,
    {
        ids.push(tiles[i].id);
        i += 1;
    }
    proof {
        assert(ids@ =~= ids_of(tiles@));
    }
    ids
}

/// The same ids, in the same order.
pub fn copy_ids(ids: &Vec<i64>) -> (copy: Vec<i64>)
    ensures
        copy@ == ids@,
{
    let mut copy: Vec<i64> = Vec::new();
    let mut i: usize = 0;
    while i < ids.len()
        invariant
            i <= ids.len(),
            copy@.len() == i,
            forall|k: int| 0 <= k < i ==> #[trigger] copy@[k] == ids@[k],
        decreases ids.len() - i,
    {
        copy.push(ids[i]);
        i += 1;
    }
    proof {
        assert(copy@ =~= ids@);
    }
    copy
}

/// The id of a tile that is the window `id`, or lies in `row` and starts at or right of
/// `from_x`.
pub open spec fn newcomer(id: i64, row: i32, from_x: int) -> spec_fn(ManagedTile) -> Option<i64> {
    |t: ManagedTile|
        if t.id == id || (t.position.row == row && t.position.x >= from_x) {
            Some(t.id)
        } else {
            None
        }
}

/// The ids of the tiles that are the window `id`, or lie in `row` and start at or
/// right of `from_x`, in the order of the tiles.
pub open spec fn newcomers(tiles: Seq<ManagedTile>, id: i64, row: i32, from_x: int) -> Seq<i64> {
    tiles.filter_map(newcomer(id, row, from_x))
}

/// The ids of the tiles that are the window `id`, or lie in `row` and start at or
/// right of `from_x`, in the order of the tiles.
pub fn newcomer_ids(tiles: &Vec<ManagedTile>, id: i64, row: i32, from_x: i32) -> (ids: Vec<i64>)
    ensures
        ids@ == newcomers(tiles@, id, row, from_x as int),
{
    let ghost pick = newcomer(id, row, from_x as int);
    let mut ids: Vec<i64> = Vec::new();
    let mut i: usize = 0;
    proof {
        assert(tiles@.take(0).filter_map(pick) =~= Seq::<i64>::empty());
    }
    while i < tiles.len()
        invariant
            i <= tiles.len(),
            pick == newcomer(id, row, from_x as int),
            ids@ == tiles@.take(i as int).filter_map(pick),
        decreases tiles.len() - i,
    {
        proof {
            tiles@.lemma_filter_map_take_succ(pick, i as int);
        }
        let t: ManagedTile = tiles[i];
        if t.id == id || (t.position.row == row && t.position.x >= from_x) {
            ids.push(t.id);
        }
        i += 1;
    }
    proof {
        assert(tiles@.take(tiles@.len() as int) == tiles@);
    }
    ids
}

/// The windows to make fit to be tiles, where the command named `id` and left the
/// tiles `tiles`.
pub open spec fn prepared_under(preparing: Preparing, tiles: Seq<ManagedTile>, display: Display, id: i64) -> Seq<
    i64,
> {
    match preparing {
        Preparing::NoTile => Seq::empty(),
        Preparing::Newcomers => if manages(tiles, id) {
            let tile = tiles[tile_index(tiles, id)];
            newcomers(tiles, id, tile.position.row, tile.end(display))
        } else {
            Seq::empty()
        },
        Preparing::EveryTile => ids_of(tiles),
    }
}

/// The floating windows to give the tiles' opacity, where the command named `id` and
/// left the floating windows `floating`.
pub open spec fn tinted_under(tinting: Tinting, floating: Seq<i64>, id: i64) -> Seq<i64> {
    match tinting {
        Tinting::NoWindow => Seq::empty(),
        Tinting::Newcomer => seq![id],
        Tinting::EveryWindow => floating,
    }
}

impl TilerState {
    /// Adding the window would make it float, and it does not float yet.
    pub open spec fn floats_anew(self, q: QueuedCommand) -> bool {
        self.add_outcome(q.hwnd, q.probe) == AddOutcome::Floating && !self.floating.contains(q.hwnd)
    }

    /// What a dispatched command asks about the look of windows. A command that the
    /// ribbon has no room for asks nothing. A window that becomes a tile is made fit
    /// together with the tiles that made room for it. A resize, also one that makes
    /// the window a tile or has it float first, sends every tile to its place, and so
    /// do a change of the opacity and of the margins. A window that comes to float is
    /// given the tiles' opacity if that is translucent; a change of the opacity is
    /// passed on to every floating window.
    pub open spec fn style_plan(self, q: QueuedCommand) -> StylePlan {
        let newcomer = if self.floats_anew(q) && self.transparency < OPAQUE {
            Tinting::Newcomer
        } else {
            Tinting::NoWindow
        };
        if !self.has_room_for(q) {
            StylePlan { preparing: Preparing::NoTile, tinting: Tinting::NoWindow }
        } else {
            match q.command {
                TilerCommand::AddWindow => StylePlan {
                    preparing: if self.add_outcome(q.hwnd, q.probe) == AddOutcome::Tiled {
                        Preparing::Newcomers
                    } else {
                        Preparing::NoTile
                    },
                    tinting: newcomer,
                },
                TilerCommand::ResizeLeft | TilerCommand::ResizeRight => if manages(self.tiles, q.hwnd) {
                    StylePlan { preparing: Preparing::EveryTile, tinting: Tinting::NoWindow }
                } else if self.add_outcome(q.hwnd, q.probe).accepted() {
                    StylePlan { preparing: Preparing::EveryTile, tinting: newcomer }
                } else {
                    StylePlan { preparing: Preparing::NoTile, tinting: Tinting::NoWindow }
                },
                TilerCommand::IncreaseTransparency | TilerCommand::DecreaseTransparency => StylePlan {
                    preparing: Preparing::EveryTile,
                    tinting: Tinting::EveryWindow,
                },
                TilerCommand::IncreaseMargins | TilerCommand::DecreaseMargins => StylePlan {
                    preparing: Preparing::EveryTile,
                    tinting: Tinting::NoWindow,
                },
                _ => StylePlan { preparing: Preparing::NoTile, tinting: Tinting::NoWindow },
            }
        }
    }

    /// The windows whose look is to be changed, where this is the state that a command
    /// with the plan `plan`, naming the window `id`, has left.
    pub open spec fn styling_under(self, plan: StylePlan, id: i64) -> Styling {
        Styling {
            prepared: prepared_under(plan.preparing, self.tiles, self.display, id),
            tinted: tinted_under(plan.tinting, self.floating, id),
        }
    }

    /// The windows whose look is to be changed after a dispatched command was carried
    /// out.
    pub open spec fn execution_styling(self, q: QueuedCommand, now: u64, foreground: i64) -> Styling {
        self.executed(q, now, foreground).styling_under(self.style_plan(q), q.hwnd)
    }

    /// The windows to make fit to be tiles after the display was looked at: every tile
    /// on a change, none otherwise.
    pub open spec fn resolution_styling(self, now: u64, display: Display) -> Styling {
        let after = self.resolution_checked(now, display);
        if after.display != self.display {
            Styling { prepared: ids_of(after.tiles), tinted: Seq::empty() }
        } else {
            Styling::none()
        }
    }

    /// The windows whose look is to be changed after a whole processing cycle at
    /// `now`: those of the look at the display, then those of every command in the
    /// order of arrival.
    pub open spec fn cycle_styling(self, now: u64, around: crate::commands::Surroundings) -> Styling {
        (TilerState { queue: Seq::empty(), ..self }).resolution_styling(now, around.display).and(
            self.cycle_start(now, around).run_styling(
                self.queue,
                self.queue.len() as int,
                now,
                around.foreground,
            ),
        )
    }
}

impl Trace {
    /// The windows whose look is to be changed after one more command: none where the
    /// throttle drops it.
    pub open spec fn step_styling(self, q: QueuedCommand, now: u64, foreground: i64) -> Styling {
        let s = self.state;
        if !admits(s.throttle[q.command.slot()], q.command, now) {
            Styling::none()
        } else {
            (TilerState { throttle: noted(s.throttle, q.command, now), ..s }).execution_styling(
                q,
                now,
                foreground,
            )
        }
    }

    /// The windows whose look is to be changed after the first `n` commands of
    /// `queue`, in their order.
    pub open spec fn run_styling(self, queue: Seq<QueuedCommand>, n: int, now: u64, foreground: i64) -> Styling
        decreases n,
    {
        if n <= 0 {
            Styling::none()
        } else {
            self.run_styling(queue, n - 1, now, foreground).and(
                self.run(queue, n - 1, now, foreground).step_styling(queue[n - 1], now, foreground),
            )
        }
    }
}

impl RibbonTiler {
    /// Whether adding the window would make it float.
    pub fn would_float(&self, id: i64, probe: Option<crate::commands::WindowProbe>) -> (b: bool)
        ensures
            b == (self@.add_outcome(id, probe) == AddOutcome::Floating),
    {
        if self.is_managed(id) {
            false
        } else {
            match probe {
                Some(p) => p.eligible && p.popup,
                None => false,
            }
        }
    }

    /// What a command that the throttle has let through asks about the look of
    /// windows, as far as the state before it tells.
    pub fn style_plan(&self, q: &QueuedCommand) -> (plan: StylePlan)
        requires
            self.wf(),
        ensures
            plan == self@.style_plan(*q),
    {
        let nothing = StylePlan { preparing: Preparing::NoTile, tinting: Tinting::NoWindow };
        if !self.has_room_for(q) {
            return nothing;
        }
        let floats: bool = self.would_float(q.hwnd, q.probe);
        let newcomer: Tinting = if floats && !contains_id(&self.floating_windows, q.hwnd)
            && is_translucent(self.transparency) {
            Tinting::Newcomer
        } else {
            Tinting::NoWindow
        };
        match q.command {
            TilerCommand::AddWindow => StylePlan {
                preparing: if self.would_tile(q.hwnd, q.probe) {
                    Preparing::Newcomers
                } else {
                    Preparing::NoTile
                },
                tinting: newcomer,
            },
            TilerCommand::ResizeLeft | TilerCommand::ResizeRight => {
                if self.is_managed(q.hwnd) {
                    StylePlan { preparing: Preparing::EveryTile, tinting: Tinting::NoWindow }
                } else if floats || self.would_tile(q.hwnd, q.probe) {
                    StylePlan { preparing: Preparing::EveryTile, tinting: newcomer }
                } else {
                    nothing
                }
            },
            TilerCommand::IncreaseTransparency | TilerCommand::DecreaseTransparency => StylePlan {
                preparing: Preparing::EveryTile,
                tinting: Tinting::EveryWindow,
            },
            TilerCommand::IncreaseMargins | TilerCommand::DecreaseMargins => StylePlan {
                preparing: Preparing::EveryTile,
                tinting: Tinting::NoWindow,
            },
            _ => nothing,
        }
    }

    /// The windows whose look is to be changed after a command with the plan `plan`,
    /// naming the window `id`, was carried out.
    pub fn style_work(&self, plan: StylePlan, id: i64) -> (work: StyleWork)
        requires
            self.wf(),
        ensures
            work@ == self@.styling_under(plan, id),
    {
        let prepared: Vec<i64> = match plan.preparing {
            Preparing::NoTile => Vec::new(),
            Preparing::Newcomers => match find_tile(&self.tiles, id) {
                Some(i) => {
                    proof {
                        assert(self.tiles@[i as int].valid(self.display));
                    }
                    let tile: ManagedTile = self.tiles[i];
                    let end: i32 = tile.position.x + self.display.get_tile_width(tile.position.size);
                    newcomer_ids(&self.tiles, id, tile.position.row, end)
                },
                None => Vec::new(),
            },
            Preparing::EveryTile => tile_ids(&self.tiles),
        };
        let tinted: Vec<i64> = match plan.tinting {
            Tinting::NoWindow => Vec::new(),
            Tinting::Newcomer => {
                let mut one: Vec<i64> = Vec::new();
                one.push(id);
                one
            },
            Tinting::EveryWindow => copy_ids(&self.floating_windows),
        };
        proof {
            assert(prepared@ =~= prepared_under(plan.preparing, self.tiles@, self.display, id));
            assert(tinted@ =~= tinted_under(plan.tinting, self.floating_windows@, id));
        }
        StyleWork { prepared, tinted }
    }
}

} // verus!
