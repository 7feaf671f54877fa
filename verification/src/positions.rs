use vstd::prelude::*;

verus! {

/// How one price of a backtest compares with the Bollinger Bands computed over the window
/// before it: at or below the lower band, at or above the upper band, and at or above / at or
/// below the middle band (the moving average).
#[derive(Debug, Clone, Copy)]
pub struct BarReading<P> {
    pub price: P,
    pub at_or_below_lower: bool,
    pub at_or_above_upper: bool,
    pub at_or_above_mid: bool,
    pub at_or_below_mid: bool,
}

/// The direction of a position.
#[derive(Debug, Clone, Copy, PartialEq, Eq)]
pub enum Side {
    Long,
    Short,
}

/// What the backtest holds between bars.
#[derive(Debug, Clone, Copy)]
pub enum Position<P> {
    Flat,
    Open { side: Side, entry_bar: usize, entry_price: P },
}

/// A position that was opened and closed again.
#[derive(Debug, Clone, Copy)]
pub struct ClosedTrade<P> {
    pub side: Side,
    pub entry_bar: usize,
    pub exit_bar: usize,
    pub entry_price: P,
    pub exit_price: P,
}

/// One bar of the mean-reversion rule: when flat, buy at or below the lower band, else sell
/// short at or above the upper band; a long closes once the price is back at or above the
/// middle band, a short once it is back at or below it. A closing bar opens nothing.
pub open spec fn step<P>(pos: Position<P>, bar_index: usize, bar: BarReading<P>) -> (
    Position<P>,
    Option<ClosedTrade<P>>,
) {
    match pos {
        Position::Flat => if bar.at_or_below_lower {
            (Position::Open { side: Side::Long, entry_bar: bar_index, entry_price: bar.price }, None)
        } else if bar.at_or_above_upper {
            (
                Position::Open { side: Side::Short, entry_bar: bar_index, entry_price: bar.price },
                None,
            )
        } else {
            (Position::Flat, None)
        },
        Position::Open { side, entry_bar, entry_price } => {
            let exits = match side {
                Side::Long => bar.at_or_above_mid,
                Side::Short => bar.at_or_below_mid,
            };
            if exits {
                (
                    Position::Flat,
                    Some(
                        ClosedTrade {
                            side,
                            entry_bar,
                            exit_bar: bar_index,
                            entry_price,
                            exit_price: bar.price,
                        },
                    ),
                )
            } else {
                (pos, None)
            }
        },
    }
}

/// The trades a closing step adds to the list (none, or the one that closed).
pub open spec fn closed_list<P>(t: Option<ClosedTrade<P>>) -> Seq<ClosedTrade<P>> {
    match t {
        Some(trade) => seq![trade],
        None => Seq::empty(),
    }
}

/// The position held and the trades closed after running the rule over `bars`, starting flat.
pub open spec fn replay<P>(bars: Seq<BarReading<P>>) -> (Position<P>, Seq<ClosedTrade<P>>)
    decreases bars.len(),
{
    if bars.len() == 0 {
        (Position::Flat, Seq::empty())
    } else {
        let (pos, trades) = replay(bars.drop_last());
        let (next, closed) = step(pos, (bars.len() - 1) as usize, bars.last());
        (next, trades + closed_list(closed))
    }
}

/// Applies the rule to one bar.
pub fn step_position<P: Copy>(pos: Position<P>, bar_index: usize, bar: &BarReading<P>) -> (r: (
    Position<P>,
    Option<ClosedTrade<P>>,
))
    ensures
        r == step(pos, bar_index, *bar),
{
    match pos {
        Position::Flat => {
            if bar.at_or_below_lower {
                (
                    Position::Open { side: Side::Long, entry_bar: bar_index, entry_price: bar.price },
                    None,
                )
            } else if bar.at_or_above_upper {
                (
                    Position::Open { side: Side::Short, entry_bar: bar_index, entry_price: bar.price },
                    None,
                )
            } else {
                (Position::Flat, None)
            }
        },
        Position::Open { side, entry_bar, entry_price } => {
            let exits = match side {
                Side::Long => bar.at_or_above_mid,
                Side::Short => bar.at_or_below_mid,
            };
            if exits {
                (
                    Position::Flat,
                    Some(
                        ClosedTrade {
                            side,
                            entry_bar,
                            exit_bar: bar_index,
                            entry_price,
                            exit_price: bar.price,
                        },
                    ),
                )
            } else {
                (pos, None)
            }
        },
    }
}

/// Runs the rule over every bar in order, starting flat; hands back the trades closed on the
/// way and the position left open at the end.
pub fn replay_positions<P: Copy>(bars: &Vec<BarReading<P>>) -> (r: (Position<P>, Vec<ClosedTrade<P>>))
    ensures
        r.0 == replay(bars@).0,
        r.1@ == replay(bars@).1,
{
    let mut pos: Position<P> = Position::Flat;
    let mut trades: Vec<ClosedTrade<P>> = Vec::new();
    let mut i: usize = 0;
    while i < bars.len()
        invariant
            i <= bars@.len(),
            (pos, trades@) == replay(bars@.take(i as int)),
        decreases bars@.len() - i,
    {
        let (next, closed) = step_position(pos, i, &bars[i]);
        proof {
            assert(bars@.take(i + 1).drop_last() =~= bars@.take(i as int));
        }
        pos = next;
        match closed {
            Some(t) => trades.push(t),
            None => {},
        }
        i = i + 1;
        proof {
            assert(trades@ =~= replay(bars@.take(i as int)).1);
        }
    }
    proof {
        assert(bars@.take(i as int) =~= bars@);
    }
    (pos, trades)
}

/// The bar opens a position on `side` when the position is flat.
pub open spec fn opens<P>(side: Side, bar: BarReading<P>) -> bool {
    match side {
        Side::Long => bar.at_or_below_lower,
        Side::Short => !bar.at_or_below_lower && bar.at_or_above_upper,
    }
}

/// The bar closes a position on `side`.
pub open spec fn closes<P>(side: Side, bar: BarReading<P>) -> bool {
    match side {
        Side::Long => bar.at_or_above_mid,
        Side::Short => bar.at_or_below_mid,
    }
}

/// The trade is well placed in `bars`: it enters on a bar that opens its side at that bar's
/// price and exits later on a bar that closes its side at that bar's price.
pub open spec fn trade_fits<P>(bars: Seq<BarReading<P>>, t: ClosedTrade<P>) -> bool {
    &&& t.entry_bar < t.exit_bar < bars.len()
    &&& opens(t.side, bars[t.entry_bar as int])
    &&& closes(t.side, bars[t.exit_bar as int])
    &&& t.entry_price == bars[t.entry_bar as int].price
    &&& t.exit_price == bars[t.exit_bar as int].price
}

/// No bar strictly after `entry_bar` and before `end` closes a position on `side`.
pub open spec fn holds_until<P>(bars: Seq<BarReading<P>>, side: Side, entry_bar: int, end: int) -> bool {
    forall|b: int| entry_bar < b < end ==> !closes(side, #[trigger] bars[b])
}

/// One position at a time: every closed trade enters on an opening bar and exits on a later
/// closing bar, each trade starts after the previous one ended, and a position still open at
/// the end was entered after the last closed trade, on an opening bar at that bar's price.
pub proof fn law_one_position_at_a_time<P>(bars: Seq<BarReading<P>>)
    requires
        bars.len() <= usize::MAX,
    ensures
        forall|k: int|
            0 <= k < replay(bars).1.len() ==> trade_fits(bars, #[trigger] replay(bars).1[k]),
        forall|k: int|
            0 <= k < replay(bars).1.len() - 1 ==> #[trigger] replay(bars).1[k].exit_bar < replay(
                bars,
            ).1[k + 1].entry_bar,
        replay(bars).0 matches Position::Open { side, entry_bar, entry_price } ==> {
            &&& entry_bar < bars.len()
            &&& opens(side, bars[entry_bar as int])
            &&& entry_price == bars[entry_bar as int].price
            &&& replay(bars).1.len() > 0 ==> replay(bars).1.last().exit_bar < entry_bar
        },
        replay(bars).1.len() > 0 ==> replay(bars).1.last().exit_bar < bars.len(),
    decreases bars.len(),
{
    if bars.len() > 0 {
        let rest = bars.drop_last();
        law_one_position_at_a_time(rest);
        let (pos, trades) = replay(rest);
        let (next, closed) = step(pos, (bars.len() - 1) as usize, bars.last());
        let all = trades + closed_list(closed);
        assert forall|k: int| 0 <= k < trades.len() implies trade_fits(bars, #[trigger] trades[k]) by {
            assert(trade_fits(rest, trades[k]));
            assert(bars[trades[k].entry_bar as int] == rest[trades[k].entry_bar as int]);
            assert(bars[trades[k].exit_bar as int] == rest[trades[k].exit_bar as int]);
        }
        assert forall|k: int| 0 <= k < all.len() implies trade_fits(bars, #[trigger] all[k]) by {
            if k < trades.len() {
                assert(all[k] == trades[k]);
            } else {
                match pos {
                    Position::Open { side, entry_bar, entry_price } => {
                        assert(bars[entry_bar as int] == rest[entry_bar as int]);
                        assert(closed is Some);
                        assert(all[k] == closed->0);
                    },
                    Position::Flat => {
                        assert(closed is None);
                    },
                }
            }
        }
        assert forall|k: int| 0 <= k < all.len() - 1 implies #[trigger] all[k].exit_bar < all[k
            + 1].entry_bar by {
            if k + 1 < trades.len() {
                assert(all[k] == trades[k] && all[k + 1] == trades[k + 1]);
            } else {
                assert(all[k] == trades.last());
            }
        }
        match next {
            Position::Open { side, entry_bar, entry_price } => {
                match pos {
                    Position::Open { .. } => {
                        assert(bars[entry_bar as int] == rest[entry_bar as int]);
                    },
                    Position::Flat => {
                        if trades.len() > 0 {
                            assert(trades.last().exit_bar < rest.len());
                        }
                    },
                }
            },
            Position::Flat => {},
        }
        if all.len() > 0 {
            if closed is None {
                assert(all =~= trades);
            }
        }
    }
}

/// A position is closed by the first closing bar after its entry: no bar strictly between a
/// trade's entry and exit closes its side, and no bar since the entry of a position still open
/// at the end closes it.
pub proof fn law_exit_on_first_closing_bar<P>(bars: Seq<BarReading<P>>)
    requires
        bars.len() <= usize::MAX,
    ensures
        forall|k: int|
            0 <= k < replay(bars).1.len() ==> holds_until(
                bars,
                (#[trigger] replay(bars).1[k]).side,
                replay(bars).1[k].entry_bar as int,
                replay(bars).1[k].exit_bar as int,
            ),
        replay(bars).0 matches Position::Open { side, entry_bar, entry_price } ==> holds_until(
            bars,
            side,
            entry_bar as int,
            bars.len() as int,
        ),
    decreases bars.len(),
{
    if bars.len() > 0 {
        let rest = bars.drop_last();
        law_exit_on_first_closing_bar(rest);
        law_one_position_at_a_time(rest);
        let (pos, trades) = replay(rest);
        let (next, closed) = step(pos, (bars.len() - 1) as usize, bars.last());
        let all = trades + closed_list(closed);
        assert forall|k: int| 0 <= k < trades.len() implies holds_until(
            bars,
            (#[trigger] trades[k]).side,
            trades[k].entry_bar as int,
            trades[k].exit_bar as int,
        ) by {
            let t = trades[k];
            assert(holds_until(rest, t.side, t.entry_bar as int, t.exit_bar as int));
            assert forall|b: int| t.entry_bar < b < t.exit_bar implies !closes(
                t.side,
                #[trigger] bars[b],
            ) by {
                assert(bars[b] == rest[b]);
            }
        }
        if let Position::Open { side, entry_bar, entry_price } = pos {
            assert(holds_until(rest, side, entry_bar as int, rest.len() as int));
            assert forall|b: int| entry_bar < b < rest.len() implies !closes(side, #[trigger] bars[b]) by {
                assert(bars[b] == rest[b]);
            }
        }
        assert forall|k: int| 0 <= k < all.len() implies holds_until(
            bars,
            (#[trigger] all[k]).side,
            all[k].entry_bar as int,
            all[k].exit_bar as int,
        ) by {
            if k < trades.len() {
                assert(all[k] == trades[k]);
            } else {
                assert(closed is Some);
                assert(all[k] == closed->0);
            }
        }
    }
}

/// A position changes only on a bar that closes it: an open long stays as it is until a bar at
/// or above the middle band, an open short until a bar at or below it, and that bar closes it at
/// its price. A flat position opens on every opening bar: long at or below the lower band, else
/// short at or above the upper band; otherwise it stays flat.
pub proof fn law_position_changes_only_on_close<P>(pos: Position<P>, bar_index: usize, bar: BarReading<P>)
    ensures
        pos matches Position::Open { side: Side::Long, entry_bar, entry_price } ==> if bar.at_or_above_mid {
            step(pos, bar_index, bar) == (
                Position::<P>::Flat,
                Some(
                    ClosedTrade {
                        side: Side::Long,
                        entry_bar,
                        exit_bar: bar_index,
                        entry_price,
                        exit_price: bar.price,
                    },
                ),
            )
        } else {
            step(pos, bar_index, bar) == (pos, None::<ClosedTrade<P>>)
        },
        pos matches Position::Open { side: Side::Short, entry_bar, entry_price } ==> if bar.at_or_below_mid {
            step(pos, bar_index, bar) == (
                Position::<P>::Flat,
                Some(
                    ClosedTrade {
                        side: Side::Short,
                        entry_bar,
                        exit_bar: bar_index,
                        entry_price,
                        exit_price: bar.price,
                    },
                ),
            )
        } else {
            step(pos, bar_index, bar) == (pos, None::<ClosedTrade<P>>)
        },
        pos is Flat && bar.at_or_below_lower ==> step(pos, bar_index, bar) == (
            Position::Open { side: Side::Long, entry_bar: bar_index, entry_price: bar.price },
            None::<ClosedTrade<P>>,
        ),
        pos is Flat && !bar.at_or_below_lower && bar.at_or_above_upper ==> step(pos, bar_index, bar)
            == (
            Position::Open { side: Side::Short, entry_bar: bar_index, entry_price: bar.price },
            None::<ClosedTrade<P>>,
        ),
        pos is Flat && !bar.at_or_below_lower && !bar.at_or_above_upper ==> step(pos, bar_index, bar)
            == (Position::<P>::Flat, None::<ClosedTrade<P>>),
{
}

} // verus!
