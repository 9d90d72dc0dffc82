use vstd::prelude::*;

verus! {

/// A zodiac animal: one of the twelve members of the animal cycle, told by
/// its order, which runs from 1 to 12.
#[derive(Debug, Clone, Copy, PartialEq, Eq, Structural)]
pub struct Animal {
    order: i64,
}

impl View for Animal {
    type V = int;

    closed spec fn view(&self) -> int {
        self.order as int
    }
}

impl Animal {
    #[verifier::type_invariant]
    spec fn in_cycle(self) -> bool {
        Self::is_supported_spec(self.order as int)
    }

    /// Whether `order` names a member of the animal cycle.
    pub open spec fn is_supported_spec(order: int) -> bool {
        1 <= order <= 12
    }

    /// The written name of the animal of the given order.
    pub open spec fn alias_spec(order: int) -> Seq<char> {
        if order == 1 {
            "鼠"@
        } else if order == 2 {
            "牛"@
        } else if order == 3 {
            "虎"@
        } else if order == 4 {
            "兔"@
        } else if order == 5 {
            "龙"@
        } else if order == 6 {
            "蛇"@
        } else if order == 7 {
            "马"@
        } else if order == 8 {
            "羊"@
        } else if order == 9 {
            "猴"@
        } else if order == 10 {
            "鸡"@
        } else if order == 11 {
            "狗"@
        } else {
            "猪"@
        }
    }

    /// The animal of the given order, or nothing where the order lies outside
    /// the cycle.
    pub fn new(order: i64) -> (r: Option<Animal>)
        ensures
            r is Some <==> Self::is_supported_spec(order as int),
            r is Some ==> r.unwrap()@ == order,
    {
        if !Self::is_supported(order) {
            return None;
        }
        Some(Animal { order })
    }

    /// The written name of the animal.
    pub fn alias(&self) -> (r: &'static str)
        ensures
            r@ == Self::alias_spec(self@),
    {
        match self.order {
            1 => "鼠",
            2 => "牛",
            3 => "虎",
            4 => "兔",
            5 => "龙",
            6 => "蛇",
            7 => "马",
            8 => "羊",
            9 => "猴",
            10 => "鸡",
            11 => "狗",
            _ => "猪",
        }
    }

    fn is_supported(order: i64) -> (r: bool)
        ensures
            r == Self::is_supported_spec(order as int),
    {
        1 <= order && order <= 12
    }
}

} // verus!
