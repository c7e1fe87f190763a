use vstd::prelude::*;

verus! {

/// The direction of a sort.
#[derive(Clone, Copy, Debug, PartialEq, Eq, Structural)]
pub enum Order {
    Unknown,
    Asc,
    Desc,
}

/// The wire code of `order`.
pub open spec fn order_code(order: Order) -> i32 {
    match order {
        Order::Unknown => 0,
        Order::Asc => 1,
        Order::Desc => 2,
    }
}

/// The name of `order` in the protocol definition.
pub open spec fn order_proto_name(order: Order) -> Seq<char> {
    match order {
        Order::Unknown => "UNKNOWN"@,
        Order::Asc => "ASC"@,
        Order::Desc => "DESC"@,
    }
}

impl Order {
    /// The order whose wire code is `n`, if any.
    pub fn from_i32(n: i32) -> (order: Option<Order>)
        ensures
            match order {
                Some(o) => order_code(o) == n,
                None => forall|o: Order| order_code(o) != n,
            },
    {
        match n {
            0 => Some(Order::Unknown),
            1 => Some(Order::Asc),
            2 => Some(Order::Desc),
            _ => None,
        }
    }

    /// The order whose wire code is `n`, if any.
    pub fn from_i64(n: i64) -> (order: Option<Order>)
        ensures
            match order {
                Some(o) => order_code(o) == n,
                None => forall|o: Order| order_code(o) != n,
            },
    {
        match n {
            0 => Some(Order::Unknown),
            1 => Some(Order::Asc),
            2 => Some(Order::Desc),
            _ => None,
        }
    }

    /// The order whose wire code is `n`, if any.
    pub fn from_u64(n: u64) -> (order: Option<Order>)
        ensures
            match order {
                Some(o) => order_code(o) == n,
                None => forall|o: Order| order_code(o) != n,
            },
    {
        match n {
            0 => Some(Order::Unknown),
            1 => Some(Order::Asc),
            2 => Some(Order::Desc),
            _ => None,
        }
    }

    /// The wire code of this order.
    pub fn to_i32(&self) -> (n: i32)
        ensures
            n == order_code(*self),
    {
        match self {
            Order::Unknown => 0,
            Order::Asc => 1,
            Order::Desc => 2,
        }
    }

    /// The name of this order in the protocol definition.
    pub fn as_str_name(&self) -> (name: &'static str)
        ensures
            name@ == order_proto_name(*self),
    {
        match self {
            Order::Unknown => "UNKNOWN",
            Order::Asc => "ASC",
            Order::Desc => "DESC",
        }
    }
}

} // verus!
