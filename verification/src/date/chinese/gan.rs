use vstd::prelude::*;

verus! {

/// A heavenly stem: one of the ten members of the stem cycle, told by its
/// order, which runs from 1 to 10.
#[derive(Debug, Clone, Copy, PartialEq, Eq, Structural)]
pub struct Gan {
    order: i64,
}

impl View for Gan {
    type V = int;

    closed spec fn view(&self) -> int {
        self.order as int
    }
}

impl Gan {
    #[verifier::type_invariant]
    spec fn in_cycle(self) -> bool {
        Self::is_supported_spec(self.order as int)
    }

    /// Whether `order` names a member of the stem cycle.
    pub open spec fn is_supported_spec(order: int) -> bool {
        1 <= order <= 10
    }

    /// The written name of the stem of the given order.
    pub open spec fn alias_spec(order: int) -> Seq<char> {
        if order == 1 {
            "甲"@
        } else if order == 2 {
            "乙"@
        } else if order == 3 {
            "丙"@
        } else if order == 4 {
            "丁"@
        } else if order == 5 {
            "戊"@
        } else if order == 6 {
            "己"@
        } else if order == 7 {
            "庚"@
        } else if order == 8 {
            "辛"@
        } else if order == 9 {
            "壬"@
        } else {
            "癸"@
        }
    }

    /// The stem of the given order, or nothing where the order lies outside
    /// the cycle.
    pub fn new(order: i64) -> (r: Option<Gan>)
        ensures
            r is Some <==> Self::is_supported_spec(order as int),
            r is Some ==> r.unwrap()@ == order,
    {
        if !Self::is_supported(order) {
            return None;
        }
        Some(Gan { order })
    }

    /// The written name of the stem.
    pub fn alias(&self) -> (r: &'static str)
        ensures
            r@ == Self::alias_spec(self@),
    {
        match self.order {
            1 => "甲",
            2 => "乙",
            3 => "丙",
            4 => "丁",
            5 => "戊",
            6 => "己",
            7 => "庚",
            8 => "辛",
            9 => "壬",
            _ => "癸",
        }
    }

    /// The order of the stem within its cycle.
    pub fn order(&self) -> (r: i64)
        ensures
            r == self@,
            Self::is_supported_spec(r as int),
    {
        proof {
            use_type_invariant(self);
        }
        self.order
    }

    fn is_supported(order: i64) -> (r: bool)
        ensures
            r == Self::is_supported_spec(order as int),
    {
        1 <= order && order <= 10
    }
}

} // verus!
