use vstd::prelude::*;
use vstd::string::StringExecFns;

verus! {

/// Tegnet for sifferet `d` (0..=9).
pub open spec fn siffer(d: nat) -> char {
    ((d + 48) as u32) as char
}

/// Desimalrepresentasjonen av et naturlig tall, uten ledende nuller.
pub open spec fn desimal(n: nat) -> Seq<char>
    decreases n,
{
    if n < 10 {
        seq![siffer(n)]
    } else {
        desimal(n / 10).push(siffer(n % 10))
    }
}

/// Desimalrepresentasjonen av et fortegnsheltall: `-` foran negative tall.
pub open spec fn desimal_i32(n: i32) -> Seq<char> {
    if n < 0 {
        seq!['-'] + desimal((-(n as int)) as nat)
    } else {
        desimal(n as nat)
    }
}

/// Teksten for ett siffer.
fn siffer_tekst(d: u64) -> (r: &'static str)
    requires
        d < 10,
    ensures
        r@ == seq![siffer(d as nat)],
{
    if d == 0 {
        proof {
            reveal_strlit("0");
        }
        "0"
    } else if d == 1 {
        proof {
            reveal_strlit("1");
        }
        "1"
    } else if d == 2 {
        proof {
            reveal_strlit("2");
        }
        "2"
    } else if d == 3 {
        proof {
            reveal_strlit("3");
        }
        "3"
    } else if d == 4 {
        proof {
            reveal_strlit("4");
        }
        "4"
    } else if d == 5 {
        proof {
            reveal_strlit("5");
        }
        "5"
    } else if d == 6 {
        proof {
            reveal_strlit("6");
        }
        "6"
    } else if d == 7 {
        proof {
            reveal_strlit("7");
        }
        "7"
    } else if d == 8 {
        proof {
            reveal_strlit("8");
        }
        "8"
    } else {
        proof {
            reveal_strlit("9");
        }
        "9"
    }
}

/// Desimalrepresentasjonen av `n`, siffer for siffer fra det mest betydende.
fn desimal_tekst(n: u64) -> (r: String)
    ensures
        r@ == desimal(n as nat),
    decreases n,
{
    if n < 10 {
        String::from_str(siffer_tekst(n))
    } else {
        let mut r = desimal_tekst(n / 10);
        r.append(siffer_tekst(n % 10));
        r
    }
}

/// Desimalrepresentasjonen av tallet.
pub(crate) fn usize_til_tekst(n: usize) -> (r: String)
    ensures
        r@ == desimal(n as nat),
{
    desimal_tekst(n as u64)
}

/// Desimalrepresentasjonen av tallet, med `-` foran negative tall.
pub(crate) fn i32_til_tekst(n: i32) -> (r: String)
    ensures
        r@ == desimal_i32(n),
{
    if n < 0 {
        let tall = desimal_tekst((-(n as i64)) as u64);
        proof {
            reveal_strlit("-");
        }
        String::from_str("-").concat(tall.as_str())
    } else {
        desimal_tekst(n as u64)
    }
}

/// Merkelappen i populasjonsmenyen: "Ancestor_id ", stamfarens id og ", score:  ".
pub open spec fn stamfar_merke(ancestor_id: i32) -> Seq<char> {
    "Ancestor_id "@ + desimal_i32(ancestor_id) + ", score:  "@
}

/// Merkelappen for et individ i populasjonsmenyen, før poengene.
pub fn stamfar_tekst(ancestor_id: i32) -> (r: String)
    ensures
        r@ == stamfar_merke(ancestor_id),
{
    let tall = i32_til_tekst(ancestor_id);
    String::from_str("Ancestor_id ").concat(tall.as_str()).concat(", score:  ")
}

} // verus!
