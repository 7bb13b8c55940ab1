use crate::profiles::{strings_view, ProfileSet};
use crate::text::name_view;
use vstd::prelude::*;

verus! {

/// Which front end of the network manager drives the profiles: plain
/// `netctl`, or `netctl-auto`, which switches on its own.
#[derive(Clone, Copy, Debug, PartialEq, Eq, Structural)]
pub enum Flavor {
    Netctl,
    NetctlAuto,
}

/// The program that a flavor runs.
pub open spec fn program_name(f: Flavor) -> Seq<char> {
    match f {
        Flavor::Netctl => "netctl"@,
        Flavor::NetctlAuto => "netctl-auto"@,
    }
}

/// The command lines that switch to `target`: with plain `netctl`, a stop
/// of the active profile if there is one, then a start of the target; with
/// `netctl-auto`, one switch.
pub open spec fn switch_lines(f: Flavor, active: Option<Seq<char>>, target: Seq<char>) -> Seq<
    Seq<Seq<char>>,
> {
    match f {
        Flavor::Netctl => match active {
            Some(a) => seq![seq!["netctl"@, "stop"@, a], seq!["netctl"@, "start"@, target]],
            None => seq![seq!["netctl"@, "start"@, target]],
        },
        Flavor::NetctlAuto => seq![seq!["netctl-auto"@, "switch-to"@, target]],
    }
}

/// The characters of each word of each command line.
pub open spec fn lines_view(v: Seq<Vec<String>>) -> Seq<Seq<Seq<char>>> {
    v.map_values(|l: Vec<String>| strings_view(l@))
}

fn program(f: Flavor) -> (r: String)
    ensures
        r@ == program_name(f),
{
    match f {
        Flavor::Netctl => String::from_str("netctl"),
        Flavor::NetctlAuto => String::from_str("netctl-auto"),
    }
}

fn line3(a: String, b: String, c: String) -> (r: Vec<String>)
    ensures
        strings_view(r@) == seq![a@, b@, c@],
{
    let mut v: Vec<String> = Vec::new();
    v.push(a);
    v.push(b);
    v.push(c);
    assert(strings_view(v@) =~= seq![a@, b@, c@]);
    v
}

/// The command line that lists the profiles, marking the active one.
pub fn list_command(flavor: Flavor) -> (r: Vec<String>)
    ensures
        strings_view(r@) == seq![program_name(flavor), "list"@],
{
    let mut v: Vec<String> = Vec::new();
    v.push(program(flavor));
    v.push(String::from_str("list"));
    assert(strings_view(v@) =~= seq![program_name(flavor), "list"@]);
    v
}

/// The command lines to run, in order, to switch to profile `target`.
pub fn switch_commands(flavor: Flavor, active: &Option<String>, target: &String) -> (r: Vec<
    Vec<String>,
>)
    ensures
        lines_view(r@) == switch_lines(flavor, name_view(*active), target@),
{
    let mut out: Vec<Vec<String>> = Vec::new();
    match flavor {
        Flavor::Netctl => {
            match active {
                Some(a) => {
                    out.push(
                        line3(String::from_str("netctl"), String::from_str("stop"), a.clone()),
                    );
                },
                None => {},
            }
            out.push(line3(String::from_str("netctl"), String::from_str("start"), target.clone()));
        },
        Flavor::NetctlAuto => {
            out.push(
                line3(String::from_str("netctl-auto"), String::from_str("switch-to"), target.clone()),
            );
        },
    }
    assert(lines_view(out@) =~= switch_lines(flavor, name_view(*active), target@));
    out
}

/// The entries of the profiles menu: each known profile in order, checked
/// when it is the active one.
pub fn profile_menu(profiles: &ProfileSet, active: &Option<String>) -> (r: Vec<(String, bool)>)
    ensures
        r@.len() == profiles@.len(),
        forall|i: int|
            0 <= i < r@.len() ==> (#[trigger] r@[i]).0@ == profiles@[i] && r@[i].1 == (name_view(
                *active,
            ) == Some(profiles@[i])),
{
    let names = profiles.names();
    let mut out: Vec<(String, bool)> = Vec::new();
    let mut i: usize = 0;
    while i < names.len()
        invariant
            i <= names@.len(),
            strings_view(names@) == profiles@,
            out@.len() == i,
            forall|k: int|
                0 <= k < i ==> (#[trigger] out@[k]).0@ == profiles@[k] && out@[k].1 == (name_view(
                    *active,
                ) == Some(profiles@[k])),
        decreases names@.len() - i,
    {
        let checked = match active {
            Some(a) => *a == names[i],
            None => false,
        };
        assert(names@[i as int]@ == profiles@[i as int]);
        out.push((names[i].clone(), checked));
        i = i + 1;
    }
    out
}

/// Whether a user is in the groups `wheel` and `network`, from the names of
/// the groups the user is in.
pub fn group_flags(groups: &Vec<String>) -> (r: (bool, bool))
    ensures
        r.0 == strings_view(groups@).contains("wheel"@),
        r.1 == strings_view(groups@).contains("network"@),
{
    let wheel = String::from_str("wheel");
    let network = String::from_str("network");
    let mut in_wheel = false;
    let mut in_network = false;
    let mut i: usize = 0;
    while i < groups.len()
        invariant
            i <= groups@.len(),
            wheel@ == "wheel"@,
            network@ == "network"@,
            in_wheel == strings_view(groups@).take(i as int).contains("wheel"@),
            in_network == strings_view(groups@).take(i as int).contains("network"@),
        decreases groups@.len() - i,
    {
        let ghost before = strings_view(groups@).take(i as int);
        let ghost after = strings_view(groups@).take(i + 1);
        assert(after =~= before.push(groups@[i as int]@));
        if groups[i] == network {
            in_network = true;
        } else if groups[i] == wheel {
            in_wheel = true;
        }
        proof {
            assert(after[i as int] == groups@[i as int]@);
            assert forall|n: Seq<char>| after.contains(n) <==> (before.contains(n) || n
                == groups@[i as int]@) by {
                if after.contains(n) {
                    let k = choose|k: int| 0 <= k < after.len() && after[k] == n;
                    if k < i {
                        assert(before[k] == n);
                    }
                }
                if before.contains(n) {
                    let k = choose|k: int| 0 <= k < before.len() && before[k] == n;
                    assert(after[k] == n);
                }
            }
            if groups@[i as int]@ == "network"@ {
                assert("network"@ != "wheel"@) by {
                    reveal_strlit("network");
                    reveal_strlit("wheel");
                }
            }
        }
        i = i + 1;
    }
    assert(strings_view(groups@).take(i as int) =~= strings_view(groups@));
    (in_wheel, in_network)
}

} // verus!
