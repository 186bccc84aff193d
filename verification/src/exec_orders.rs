//! Executive orders: definitions and metadata.
use vstd::prelude::*;

verus! {

#[derive(Debug, Clone, Copy, PartialEq, Eq, Structural)]
pub enum ExecOrder {
    Shutdown,
    TravelBanLite,
    BookPanic,
    TariffTsunami,
    DoEEliminated,
    WarDeptReorg,
}

impl ExecOrder {
    /// Stable identifier of the order.
    pub open spec fn key_spec(self) -> Seq<char> {
        match self {
            ExecOrder::Shutdown => "shutdown"@,
            ExecOrder::TravelBanLite => "travel_ban_lite"@,
            ExecOrder::BookPanic => "book_panic"@,
            ExecOrder::TariffTsunami => "tariff_tsunami"@,
            ExecOrder::DoEEliminated => "doe_eliminated"@,
            ExecOrder::WarDeptReorg => "war_dept_reorg"@,
        }
    }

    pub fn key(self) -> (r: &'static str)
        ensures
            r@ == self.key_spec(),
    {
        match self {
            ExecOrder::Shutdown => "shutdown",
            ExecOrder::TravelBanLite => "travel_ban_lite",
            ExecOrder::BookPanic => "book_panic",
            ExecOrder::TariffTsunami => "tariff_tsunami",
            ExecOrder::DoEEliminated => "doe_eliminated",
            ExecOrder::WarDeptReorg => "war_dept_reorg",
        }
    }
    /// Translation key of the order's name.
    pub open spec fn name_key_spec(self) -> Seq<char> {
        match self {
            ExecOrder::Shutdown => "eo.shutdown"@,
            ExecOrder::TravelBanLite => "eo.travel_ban_lite"@,
            ExecOrder::BookPanic => "eo.book_panic"@,
            ExecOrder::TariffTsunami => "eo.tariff_tsunami"@,
            ExecOrder::DoEEliminated => "eo.doe_eliminated"@,
            ExecOrder::WarDeptReorg => "eo.war_dept_reorg"@,
        }
    }

    pub fn name_key(self) -> (r: &'static str)
        ensures
            r@ == self.name_key_spec(),
    {
        match self {
            ExecOrder::Shutdown => "eo.shutdown",
            ExecOrder::TravelBanLite => "eo.travel_ban_lite",
            ExecOrder::BookPanic => "eo.book_panic",
            ExecOrder::TariffTsunami => "eo.tariff_tsunami",
            ExecOrder::DoEEliminated => "eo.doe_eliminated",
            ExecOrder::WarDeptReorg => "eo.war_dept_reorg",
        }
    }

    pub open spec fn daily_effect_spec(self, morale: i32, legal_fund: bool) -> DailyEffect {
        let none = DailyEffect { supplies: 0, sanity: 0, morale: 0, slows_travel: false, raises_breakdowns: false };
        match self {
            ExecOrder::Shutdown => DailyEffect { morale: -1i32, supplies: -1i32, ..none },
            ExecOrder::TravelBanLite => DailyEffect { sanity: -1i32, slows_travel: true, ..none },
            ExecOrder::BookPanic => DailyEffect { sanity: if morale < 7 { -1i32 } else { 0i32 }, ..none },
            ExecOrder::TariffTsunami => DailyEffect { supplies: if legal_fund { 0i32 } else { -1i32 }, ..none },
            ExecOrder::DoEEliminated => DailyEffect { morale: -1i32, ..none },
            ExecOrder::WarDeptReorg => DailyEffect { raises_breakdowns: true, ..none },
        }
    }

    /// Per-day effect of the order at the given morale, with or without a legal fund.
    pub fn daily_effect(self, morale: i32, legal_fund: bool) -> (r: DailyEffect)
        ensures
            r == self.daily_effect_spec(morale, legal_fund),
    {
        let mut effect = DailyEffect {
            supplies: 0,
            sanity: 0,
            morale: 0,
            slows_travel: false,
            raises_breakdowns: false,
        };
        match self {
            ExecOrder::Shutdown => {
                effect.morale = -1;
                effect.supplies = -1;
            },
            ExecOrder::TravelBanLite => {
                effect.sanity = -1;
                effect.slows_travel = true;
            },
            ExecOrder::BookPanic => {
                effect.sanity = if morale < 7 { -1 } else { 0 };
            },
            ExecOrder::TariffTsunami => {
                effect.supplies = if legal_fund { 0 } else { -1 };
            },
            ExecOrder::DoEEliminated => {
                effect.morale = -1;
            },
            ExecOrder::WarDeptReorg => {
                effect.raises_breakdowns = true;
            },
        }
        effect
    }
}

/// Per-day effect of an order. The travel and breakdown adjustments are flags:
/// the order's speed factor and breakdown bonus apply when they are set.
#[derive(Debug, Clone, Copy, PartialEq, Eq, Structural)]
pub struct DailyEffect {
    pub supplies: i32,
    pub sanity: i32,
    pub morale: i32,
    pub slows_travel: bool,
    pub raises_breakdowns: bool,
}

} // verus!
