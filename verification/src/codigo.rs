//! Decimal rendering of barcode numbers: a number is printed in base ten and
//! zero-padded on the left to at least nine digits, then appended to a pool's
//! prefix.

use vstd::prelude::*;

verus! {

/// The character for one decimal digit.
pub open spec fn digito_char(d: nat) -> char
    recommends
        d < 10,
{
    seq!['0', '1', '2', '3', '4', '5', '6', '7', '8', '9'][d as int]
}

/// The decimal rendering of `n`, most significant digit first, no padding.
pub open spec fn decimal(n: nat) -> Seq<char>
    decreases n,
{
    if n < 10 {
        seq![digito_char(n)]
    } else {
        decimal(n / 10).push(digito_char(n % 10))
    }
}

/// `k` zero characters.
pub open spec fn ceros(k: nat) -> Seq<char> {
    Seq::new(k, |i: int| '0')
}

/// The decimal rendering of `n`, zero-padded on the left to nine digits.
/// A number needing more than nine digits is printed in full.
pub open spec fn decimal_9(n: nat) -> Seq<char> {
    if decimal(n).len() >= 9 {
        decimal(n)
    } else {
        ceros((9 - decimal(n).len()) as nat) + decimal(n)
    }
}

fn char_digito(d: u64) -> (s: &'static str)
    requires
        d < 10,
    ensures
        s@ =~= seq![digito_char(d as nat)],
{
    proof {
        reveal_strlit("0");
        reveal_strlit("1");
        reveal_strlit("2");
        reveal_strlit("3");
        reveal_strlit("4");
        reveal_strlit("5");
        reveal_strlit("6");
        reveal_strlit("7");
        reveal_strlit("8");
        reveal_strlit("9");
    }
    if d == 0 {
        "0"
    } else if d == 1 {
        "1"
    } else if d == 2 {
        "2"
    } else if d == 3 {
        "3"
    } else if d == 4 {
        "4"
    } else if d == 5 {
        "5"
    } else if d == 6 {
        "6"
    } else if d == 7 {
        "7"
    } else if d == 8 {
        "8"
    } else {
        "9"
    }
}

/// Renders `n` as its zero-padded decimal form.
pub fn formatear_decimal_9(n: u64) -> (s: String)
    ensures
        s@ == decimal_9(n as nat),
{
    let ghost f = |d: u64| digito_char(d as nat);
    let mut digitos: Vec<u64> = Vec::new();
    let mut resto: u64 = n;
    while resto >= 10
        invariant
            decimal(n as nat) == decimal(resto as nat) + digitos@.map_values(
                |d: u64| digito_char(d as nat),
            ).reverse(),
            forall|k: int| 0 <= k < digitos@.len() ==> digitos@[k] < 10,
        decreases resto,
    {
        let d: u64 = resto % 10;
        proof {
            let vieja = digitos@.map_values(|x: u64| digito_char(x as nat)).reverse();
            let nueva = digitos@.push(d).map_values(|x: u64| digito_char(x as nat)).reverse();
            assert(nueva =~= seq![digito_char(d as nat)] + vieja);
            assert(decimal(resto as nat) == decimal((resto / 10) as nat).push(
                digito_char((resto % 10) as nat),
            ));
            assert(decimal((resto / 10) as nat) + nueva =~= decimal(resto as nat) + vieja);
        }
        digitos.push(d);
        resto = resto / 10;
    }
    proof {
        assert(decimal(resto as nat) =~= seq![digito_char(resto as nat)]);
    }
    let ghost rev = digitos@.map_values(|x: u64| digito_char(x as nat)).reverse();
    let ghost objetivo = decimal(n as nat);
    assert(objetivo == seq![digito_char(resto as nat)] + rev);
    assert(objetivo.len() == 1 + digitos@.len());

    let relleno: usize = if digitos.len() >= 8 {
        0
    } else {
        8 - digitos.len()
    };
    let mut s = String::new();
    let mut p: usize = 0;
    while p < relleno
        invariant
            s@ =~= ceros(p as nat),
            p <= relleno,
        decreases relleno - p,
    {
        proof {
            reveal_strlit("0");
            assert(ceros((p + 1) as nat) =~= ceros(p as nat) + "0"@);
        }
        s.append("0");
        p = p + 1;
    }
    s.append(char_digito(resto));
    assert(s@ =~= ceros(relleno as nat) + seq![digito_char(resto as nat)]);

    let mut i: usize = digitos.len();
    while i > 0
        invariant
            i <= digitos@.len(),
            forall|k: int| 0 <= k < digitos@.len() ==> digitos@[k] < 10,
            rev == digitos@.map_values(|x: u64| digito_char(x as nat)).reverse(),
            s@ =~= ceros(relleno as nat) + seq![digito_char(resto as nat)] + rev.take(
                digitos@.len() - i,
            ),
        decreases i,
    {
        i = i - 1;
        let d: u64 = digitos[i];
        proof {
            let hecho = digitos@.len() - i - 1;
            assert(rev[hecho] == digitos@.map_values(|x: u64| digito_char(x as nat))[i as int]);
            assert(rev.take(hecho + 1) =~= rev.take(hecho).push(rev[hecho]));
        }
        s.append(char_digito(d));
        proof {
            assert(s@ =~= ceros(relleno as nat) + seq![digito_char(resto as nat)] + rev.take(
                digitos@.len() - i,
            ));
        }
    }
    proof {
        assert(rev.take(digitos@.len() as int) =~= rev);
        assert(s@ =~= ceros(relleno as nat) + objetivo);
        if objetivo.len() >= 9 {
            assert(relleno == 0);
            assert(ceros(0) + objetivo =~= objetivo);
        } else {
            assert(relleno == 9 - objetivo.len());
        }
    }
    s
}

/// The full barcode text: the pool's prefix followed by the padded number.
pub open spec fn texto_codigo(prefijo: Seq<char>, n: nat) -> Seq<char> {
    prefijo + decimal_9(n)
}

/// Renders a pool prefix and an issued number as one barcode.
pub fn formatear_codigo(prefijo: &String, n: u64) -> (s: String)
    ensures
        s@ == texto_codigo(prefijo@, n as nat),
{
    let mut s = prefijo.clone();
    let num = formatear_decimal_9(n);
    s.append(num.as_str());
    s
}

} // verus!
