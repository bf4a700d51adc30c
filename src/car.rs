use vstd::prelude::*;

verus! {

/// Inserts one car document, given as the `newCar` parameter.
pub const INSERT_CAR_QUERY: &'static str = "INSERT INTO cars DOCUMENTS (:newCar)";

/// Selects the cars whose color equals the `myColor` parameter.
pub const SELECT_CARS_QUERY: &'static str = "SELECT * FROM cars where color = :myColor";

/// Name of the query parameter that holds the new car.
pub const NEW_CAR_PARAM: &'static str = "newCar";

/// Name of the query parameter that holds the color selected on.
pub const COLOR_PARAM: &'static str = "myColor";

/// A car document of the `cars` collection.
#[derive(Clone, Debug)]
pub struct Car {
    pub color: String,
    pub make: String,
}

impl Car {
    pub fn new(color: String, make: String) -> (r: Car)
        ensures
            r.color@ == color@,
            r.make@ == make@,
    {
        Car { color, make }
    }
}

/// Suffix that makes "car" agree with a count.
pub fn plural_suffix(n: usize) -> (r: &'static str)
    ensures
        r@ == (if n == 1 {
            ""@
        } else {
            "s"@
        }),
{
    if n == 1 {
        ""
    } else {
        "s"
    }
}

} // verus!
