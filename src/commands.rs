use vstd::prelude::*;
use vstd::string::*;

verus! {

/// The greeting that the host shows for `name`.
pub open spec fn greeting(name: Seq<char>) -> Seq<char> {
    "Hello, "@ + name + "! You've been greeted from Rust!"@
}

/// The name of the directory that holds the application's data.
pub open spec fn app_data_dir_name() -> Seq<char> {
    "pick-up-memories"@
}

/// Greets `name`.
pub fn greet(name: &str) -> (r: String)
    ensures
        r@ == greeting(name@),
{
    let mut r = String::from_str("Hello, ");
    r.append(name);
    r.append("! You've been greeted from Rust!");
    proof {
        reveal_strlit("Hello, ");
        reveal_strlit("! You've been greeted from Rust!");
    }
    r
}

/// The application's data directory: a fixed name for now.
pub fn get_app_data_dir() -> (r: Result<String, String>)
    ensures
        r is Ok,
        r.unwrap()@ == app_data_dir_name(),
{
    let r = String::from_str("pick-up-memories");
    proof {
        reveal_strlit("pick-up-memories");
    }
    Ok(r)
}

} // verus!
