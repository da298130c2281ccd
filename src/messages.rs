use vstd::prelude::*;
use crate::grid::ItemType;
use crate::item::catalog;

verus! {

/// The texts of a list of messages.
pub open spec fn texts(v: Seq<String>) -> Seq<Seq<char>> {
    v.map_values(|m: String| m@)
}

/// Decimal digits of `n`, most significant first, without leading zeros.
pub open spec fn decimal(n: nat) -> Seq<char>
    decreases n,
{
    if n < 10 {
        digit_text(n)
    } else {
        decimal(n / 10) + digit_text(n % 10)
    }
}

pub open spec fn digit_text(d: nat) -> Seq<char> {
    if d == 0 {
        "0"@
    } else if d == 1 {
        "1"@
    } else if d == 2 {
        "2"@
    } else if d == 3 {
        "3"@
    } else if d == 4 {
        "4"@
    } else if d == 5 {
        "5"@
    } else if d == 6 {
        "6"@
    } else if d == 7 {
        "7"@
    } else if d == 8 {
        "8"@
    } else {
        "9"@
    }
}

/// Appends the decimal digits of `n` to `s`.
pub fn push_decimal(s: &mut String, n: u32)
    ensures
        final(s)@ == old(s)@ + decimal(n as nat),
    decreases n,
{
    if n >= 10 {
        push_decimal(s, n / 10);
    }
    let d = n % 10;
    let digit = if d == 0 {
        "0"
    } else if d == 1 {
        "1"
    } else if d == 2 {
        "2"
    } else if d == 3 {
        "3"
    } else if d == 4 {
        "4"
    } else if d == 5 {
        "5"
    } else if d == 6 {
        "6"
    } else if d == 7 {
        "7"
    } else if d == 8 {
        "8"
    } else {
        "9"
    };
    s.append(digit);
    proof {
        if n >= 10 {
            assert(old(s)@ + decimal((n / 10) as nat) + digit_text((n % 10) as nat) =~= old(s)@ + decimal(
                n as nat,
            ));
        }
    }
}

/// Five pieces joined in order.
pub open spec fn joined(a: Seq<char>, b: Seq<char>, c: Seq<char>, d: Seq<char>, e: Seq<char>) -> Seq<char> {
    a + b + c + d + e
}

pub fn phrase(a: &str, b: &str, c: &str, d: &str, e: &str) -> (r: String)
    ensures
        r@ == joined(a@, b@, c@, d@, e@),
{
    let mut s = a.to_owned();
    s.append(b);
    s.append(c);
    s.append(d);
    s.append(e);
    s
}

pub open spec fn pull_text() -> Seq<char> {
    "Gravitational anomaly pulls you in!"@
}

pub open spec fn capture_text() -> Seq<char> {
    "Immense pressure... 5 turns to escape!"@
}

/// The warning of a captured player with `left` turns to go.
pub open spec fn countdown_text(left: u32) -> Seq<char> {
    "Crushing pressure! "@ + decimal(left as nat) + " turns left!"@
}

pub open spec fn escape_text() -> Seq<char> {
    "You break free from the anomaly!"@
}

pub open spec fn death_text() -> Seq<char> {
    "You are crushed to death!"@
}

/// The Philosopher's Stone's messages when only tools lie under it.
pub open spec fn idle_line(k: int) -> Seq<char> {
    if k == 0 {
        "The anomaly pulses with strange energy, but the items remain unchanged."@
    } else if k == 1 {
        "Reality shifts around you, but nothing happens."@
    } else if k == 2 {
        "Strange forces swirl, then dissipate."@
    } else {
        "You sense the anomaly trying to reshape what lies before you, but it cannot."@
    }
}

/// The message of a transmutation of an item named `name` into type `t`,
/// in wording `w`.
pub open spec fn transform_text(name: Seq<char>, t: ItemType, w: int) -> Seq<char> {
    if t == ItemType::FullyEmpty {
        joined(
            "The fabric of reality tears. A Fully Empty materializes where "@,
            name,
            " once was."@,
            ""@,
            ""@,
        )
    } else if w == 0 {
        joined("The "@, name, " shimmers with impossible light and becomes "@, catalog(t).name, "."@)
    } else if w == 1 {
        joined("Reality fractures. The "@, name, " transforms into "@, catalog(t).name, "."@)
    } else {
        joined("The anomaly pulses. Where "@, name, " lay, now rests "@, catalog(t).name, "."@)
    }
}

/// The message of a ground item named `name` turning to Rust Slag.
pub open spec fn rust_ground_text(name: Seq<char>) -> Seq<char> {
    joined(
        "The "@,
        name,
        " on the ground begins to rust rapidly before your very eyes. "@,
        "In an instant, it melts into a rusty glob."@,
        ""@,
    )
}

/// The vague messages of a carried item turning to Rust Slag; they do not say which.
pub open spec fn vague_line(k: int) -> Seq<char> {
    if k == 0 {
        "The acrid smell of oxidation surrounds you."@
    } else if k == 1 {
        "You sense something shifting in your pack."@
    } else if k == 2 {
        "A metallic tang fills the air."@
    } else if k == 3 {
        "The scent of rust and iron overwhelms you."@
    } else {
        "Something heavy settles differently at your side."@
    }
}

} // verus!
