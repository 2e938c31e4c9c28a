//! The save-file name that goes with a cartridge file.
use vstd::prelude::*;

verus! {

/// Index of the '.' that starts the extension within `name[..i]`: the last
/// '.' after the last '/', if there is one.
pub open spec fn extension_dot(name: Seq<char>, i: int) -> Option<int>
    decreases i,
{
    if i <= 0 {
        None
    } else if name[i - 1] == '.' {
        Some(i - 1)
    } else if name[i - 1] == '/' {
        None
    } else {
        extension_dot(name, i - 1)
    }
}

/// The cartridge file name with its extension, if any, replaced by ".sav".
pub open spec fn save_name_spec(name: Seq<char>) -> Seq<char> {
    match extension_dot(name, name.len() as int) {
        Some(p) => name.take(p) + seq!['.', 's', 'a', 'v'],
        None => name + seq!['.', 's', 'a', 'v'],
    }
}

proof fn lemma_extension_dot_bound(name: Seq<char>, i: int)
    requires
        i <= name.len(),
    ensures
        extension_dot(name, i) matches Some(p) ==> 0 <= p < i,
    decreases i,
{
    if i > 0 {
        lemma_extension_dot_bound(name, i - 1);
    }
}

/// The save file for the cartridge file `cart_name`: its extension replaced
/// by ".sav", or ".sav" appended where it has none.
pub fn make_save_name(cart_name: &Vec<char>) -> (r: Vec<char>)
    ensures
        r@ == save_name_spec(cart_name@),
{
    let mut i: usize = cart_name.len();
    let mut dot: Option<usize> = None;
    let mut done = false;
    while i > 0 && !done
        invariant
            i <= cart_name@.len(),
            !done ==> dot is None && extension_dot(cart_name@, cart_name@.len() as int)
                == extension_dot(cart_name@, i as int),
            done ==> extension_dot(cart_name@, cart_name@.len() as int) == match dot {
                Some(p) => Some(p as int),
                None => None,
            },
        decreases i,
    {
        let c = cart_name[i - 1];
        if c == '.' {
            dot = Some(i - 1);
            done = true;
        } else if c == '/' {
            done = true;
        }
        i = i - 1;
    }
    proof {
        lemma_extension_dot_bound(cart_name@, cart_name@.len() as int);
    }
    let end = match dot {
        Some(p) => p,
        None => cart_name.len(),
    };
    let mut r: Vec<char> = Vec::new();
    let mut k: usize = 0;
    while k < end
        invariant
            k <= end <= cart_name@.len(),
            r@ == cart_name@.take(k as int),
        decreases end - k,
    {
        r.push(cart_name[k]);
        proof {
            assert(cart_name@.take(k + 1) =~= cart_name@.take(k as int).push(cart_name@[k as int]));
        }
        k = k + 1;
    }
    r.push('.');
    r.push('s');
    r.push('a');
    r.push('v');
    proof {
        assert(r@ =~= cart_name@.take(end as int) + seq!['.', 's', 'a', 'v']);
        if dot is None {
            assert(cart_name@.take(end as int) =~= cart_name@);
        }
    }
    r
}

} // verus!
