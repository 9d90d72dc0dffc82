use vstd::prelude::*;

verus! {

/// An earthly branch: one of the twelve members of the branch cycle, told by
/// its order, which runs from 1 to 12.
#[derive(Debug, Clone, Copy, PartialEq, Eq, Structural)]
pub struct Zhi {
    order: i64,
}

impl View for Zhi {
    type V = int;

    closed spec fn view(&self) -> int {
        self.order as int
    }
}

impl Zhi {
    #[verifier::type_invariant]
    spec fn in_cycle(self) -> bool {
        Self::is_supported_spec(self.order as int)
    }

    /// Whether `order` names a member of the branch cycle.
    pub open spec fn is_supported_spec(order: int) -> bool {
        1 <= order <= 12
    }

    /// The written name of the branch of the given order.
    pub open spec fn alias_spec(order: int) -> Seq<char> {
        if order == 1 {
            "子"@
        } else if order == 2 {
            "丑"@
        } else if order == 3 {
            "寅"@
        } else if order == 4 {
            "卯"@
        } else if order == 5 {
            "辰"@
        } else if order == 6 {
            "巳"@
        } else if order == 7 {
            "午"@
        } else if order == 8 {
            "未"@
        } else if order == 9 {
            "申"@
        } else if order == 10 {
            "酉"@
        } else if order == 11 {
            "戌"@
        } else {
            "亥"@
        }
    }

    /// The branch of the given order, or nothing where the order lies outside
    /// the cycle.
    pub fn new(order: i64) -> (r: Option<Zhi>)
        ensures
            r is Some <==> Self::is_supported_spec(order as int),
            r is Some ==> r.unwrap()@ == order,
    {
        if !Self::is_supported(order) {
            return None;
        }
        Some(Zhi { order })
    }

    /// The written name of the branch.
    pub fn alias(&self) -> (r: &'static str)
        ensures
            r@ == Self::alias_spec(self@),
    {
        match self.order {
            1 => "子",
            2 => "丑",
            3 => "寅",
            4 => "卯",
            5 => "辰",
            6 => "巳",
            7 => "午",
            8 => "未",
            9 => "申",
            10 => "酉",
            11 => "戌",
            _ => "亥",
        }
    }

    /// The order of the branch within its cycle.
    pub fn order(&self) -> (r: i64)
        ensures
            r == self@,
            Self::is_supported_spec(r as int),
    {
        proof {
            use_type_invariant(self);
        }
        self.order
    }

    fn is_supported(order: i64) -> (r: bool)
        ensures
            r == Self::is_supported_spec(order as int),
    {
        1 <= order && order <= 12
    }
}

} // verus!
