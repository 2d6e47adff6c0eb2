//! The network-classification cgroup controller.  Given a controller
//! configuration it decides whether it has anything to do, and if so it
//! produces the one control-file write that applies the classification
//! identifier: the identifier's decimal string, destined for the
//! `net_cls.classid` file under the cgroup's root.  Performing the write is
//! the driver's job; its name and exact contents are decided and proved
//! here.

use vstd::prelude::*;

use crate::cgroups::ControllerOpt;
use crate::config::LinuxNetwork;

verus! {

/// The decimal digit character for `d`.
pub open spec fn decimal_digit(d: nat) -> char {
    if d == 0 {
        '0'
    } else if d == 1 {
        '1'
    } else if d == 2 {
        '2'
    } else if d == 3 {
        '3'
    } else if d == 4 {
        '4'
    } else if d == 5 {
        '5'
    } else if d == 6 {
        '6'
    } else if d == 7 {
        '7'
    } else if d == 8 {
        '8'
    } else {
        '9'
    }
}

/// The decimal representation of `n`, most significant digit first, with no
/// leading zeros (a single `'0'` for zero).
pub open spec fn decimal_seq(n: nat) -> Seq<char>
    decreases n,
{
    if n < 10 {
        seq![decimal_digit(n)]
    } else {
        decimal_seq(n / 10) + seq![decimal_digit(n % 10)]
    }
}

/// The numeric value of a decimal digit character; ten for any other
/// character.
pub open spec fn digit_value(c: char) -> nat {
    if c == '0' {
        0
    } else if c == '1' {
        1
    } else if c == '2' {
        2
    } else if c == '3' {
        3
    } else if c == '4' {
        4
    } else if c == '5' {
        5
    } else if c == '6' {
        6
    } else if c == '7' {
        7
    } else if c == '8' {
        8
    } else if c == '9' {
        9
    } else {
        10
    }
}

/// The number a digit sequence denotes, most significant digit first.
pub open spec fn decimal_value(s: Seq<char>) -> nat
    decreases s.len(),
{
    if s.len() == 0 {
        0
    } else {
        decimal_value(s.drop_last()) * 10 + digit_value(s.last())
    }
}

/// `decimal_seq` really is the decimal representation: it is made of
/// digits, it denotes the number itself, and it carries no leading zero.
pub proof fn lemma_decimal_seq_value(n: nat)
    ensures
        decimal_value(decimal_seq(n)) == n,
        forall|i: int|
            0 <= i < decimal_seq(n).len() ==> digit_value(#[trigger] decimal_seq(n)[i]) < 10,
        decimal_seq(n).len() > 0,
        n > 0 ==> decimal_seq(n)[0] != '0',
    decreases n,
{
    if n < 10 {
        let s = decimal_seq(n);
        assert(s.len() == 1);
        assert(decimal_value(s) == decimal_value(s.drop_last()) * 10 + digit_value(s.last()));
        assert(s.drop_last() =~= Seq::<char>::empty());
        assert(decimal_value(Seq::<char>::empty()) == 0);
        assert(s.last() == decimal_digit(n));
        assert(digit_value(decimal_digit(n)) == n);
    } else {
        lemma_decimal_seq_value(n / 10);
        let prefix = decimal_seq(n / 10);
        let s = decimal_seq(n);
        assert(s =~= prefix + seq![decimal_digit(n % 10)]);
        assert(s.drop_last() =~= prefix);
        assert(s.last() == decimal_digit(n % 10));
        assert(digit_value(decimal_digit(n % 10)) == n % 10);
        assert(decimal_value(s) == (n / 10) * 10 + n % 10);
        assert forall|i: int| 0 <= i < s.len() implies digit_value(#[trigger] s[i]) < 10 by {
            if i < prefix.len() {
                assert(s[i] == prefix[i]);
            }
        }
        assert(s[0] == prefix[0]);
    }
}

/// The one-character string for decimal digit `d`.
fn digit_str(d: u32) -> (s: &'static str)
    requires
        d < 10,
    ensures
        s@ == seq![decimal_digit(d as nat)],
{
    proof {
        reveal_strlit("0");
        reveal_strlit("1");
        reveal_strlit("2");
        reveal_strlit("3");
        reveal_strlit("4");
        reveal_strlit("5");
        reveal_strlit("6");
        reveal_strlit("7");
        reveal_strlit("8");
        reveal_strlit("9");
    }
    let s = match d {
        0 => "0",
        1 => "1",
        2 => "2",
        3 => "3",
        4 => "4",
        5 => "5",
        6 => "6",
        7 => "7",
        8 => "8",
        _ => "9",
    };
    proof {
        assert(s@ =~= seq![decimal_digit(d as nat)]);
    }
    s
}

/// Formats `n` in decimal.
pub fn u32_to_decimal(n: u32) -> (s: String)
    ensures
        s@ == decimal_seq(n as nat),
    decreases n,
{
    if n < 10 {
        String::from_str(digit_str(n))
    } else {
        let mut s = u32_to_decimal(n / 10);
        s.append(digit_str(n % 10));
        proof {
            assert(s@ =~= decimal_seq(n as nat));
        }
        s
    }
}

/// One pending write of a cgroup control file: the file's name under the
/// cgroup root, and the exact contents that overwrite the file.
pub struct CgroupFileWrite {
    pub file_name: String,
    pub contents: String,
}

/// Whether `w` is the write that applies classification identifier `id`.
pub open spec fn is_class_id_write(w: CgroupFileWrite, id: u32) -> bool {
    &&& w.file_name@ == "net_cls.classid"@
    &&& w.contents@ == decimal_seq(id as nat)
}

/// The network-classification controller.
pub struct NetworkClassifier {}

impl NetworkClassifier {
    /// The controller has work exactly when the configuration carries a
    /// network section; what it returns is that section.
    pub fn needs_to_handle<'a>(controller_opt: &'a ControllerOpt<'_>) -> (r: Option<
        &'a LinuxNetwork,
    >)
        ensures
            r matches Some(network) ==> controller_opt.resources.network matches Some(n) && *network
                == n,
            r is None ==> controller_opt.resources.network is None,
    {
        if let Some(network) = controller_opt.resources.network.as_ref() {
            return Some(network);
        }

        None
    }

    /// The write that applies `network`'s classification identifier: the
    /// identifier's decimal string into the `net_cls.classid` file.  A
    /// configuration without an identifier writes nothing.
    pub fn apply(network: &LinuxNetwork) -> (r: Option<CgroupFileWrite>)
        ensures
            network.class_id matches Some(id) ==> r matches Some(w) && is_class_id_write(w, id),
            network.class_id is None ==> r is None,
    {
        if let Some(class_id) = network.class_id {
            let w = CgroupFileWrite {
                file_name: String::from_str("net_cls.classid"),
                contents: u32_to_decimal(class_id),
            };
            return Some(w);
        }

        None
    }

    /// The controller's full decision on a configuration: nothing when it
    /// carries no network section or no classification identifier, and the
    /// identifier's write otherwise.
    pub fn apply_controller(controller_opt: &ControllerOpt<'_>) -> (r: Option<CgroupFileWrite>)
        ensures
            controller_opt.resources.network is None ==> r is None,
            controller_opt.resources.network matches Some(n) ==> n.class_id is None ==> r is None,
            controller_opt.resources.network matches Some(n) ==> n.class_id matches Some(id)
                ==> r matches Some(w) && is_class_id_write(w, id),
    {
        let handled = Self::needs_to_handle(controller_opt);
        if let Some(network) = handled {
            let r = Self::apply(network);
            proof {
                assert(controller_opt.resources.network matches Some(n) ==> *network == n);
            }
            return r;
        }

        proof {
            assert(controller_opt.resources.network is None);
        }
        None
    }
}

} // verus!
