//! Known devices, derived from the two-level `last/<user>/<device>` hierarchy.

use vstd::prelude::*;

verus! {

/// A device identity: the pair of directory names it was discovered under.
/// Both strings are taken verbatim; no normalization is performed.
#[derive(Clone, Debug, PartialEq, Eq, Hash)]
pub struct StorageDevice {
    pub user_name: String,
    pub device_name: String,
}

impl View for StorageDevice {
    type V = (Seq<char>, Seq<char>);

    open spec fn view(&self) -> (Seq<char>, Seq<char>) {
        (self.user_name@, self.device_name@)
    }
}

/// The devices contributed by one user, in discovery order.
pub open spec fn user_block(user: Seq<char>, devs: Seq<String>) -> Seq<(Seq<char>, Seq<char>)>
    decreases devs.len(),
{
    if devs.len() == 0 {
        Seq::empty()
    } else {
        user_block(user, devs.drop_last()).push((user, devs.last()@))
    }
}

/// The full cross-product: each user paired with each of that user's devices.
pub open spec fn cross_devices(users: Seq<(String, Vec<String>)>) -> Seq<(Seq<char>, Seq<char>)>
    decreases users.len(),
{
    if users.len() == 0 {
        Seq::empty()
    } else {
        cross_devices(users.drop_last()) + user_block(users.last().0@, users.last().1@)
    }
}

/// Identity views of a device list.
pub open spec fn devices_view(ds: Seq<StorageDevice>) -> Seq<(Seq<char>, Seq<char>)> {
    ds.map_values(|d: StorageDevice| d@)
}

/// Enumerates the known devices from the listed `last/` hierarchy: `users`
/// pairs each user directory name with the device directory names under it.
/// The result is exactly the cross-product, in discovery order; a user with
/// no device subdirectories contributes nothing.
pub fn get_devices(users: &Vec<(String, Vec<String>)>) -> (r: Vec<StorageDevice>)
    ensures
        devices_view(r@) == cross_devices(users@),
{
    let mut devices: Vec<StorageDevice> = Vec::new();
    proof {
        assert(devices_view(devices@) =~= cross_devices(users@.take(0)));
    }
    let mut i: usize = 0;
    while i < users.len()
        invariant
            i <= users.len(),
            devices_view(devices@) == cross_devices(users@.take(i as int)),
        decreases users.len() - i,
    {
        let user_name: &String = &users[i].0;
        let devs: &Vec<String> = &users[i].1;
        let ghost block_before = cross_devices(users@.take(i as int));
        let mut j: usize = 0;
        while j < devs.len()
            invariant
                j <= devs.len(),
                devs == &users@[i as int].1,
                user_name == &users@[i as int].0,
                i < users.len(),
                devices_view(devices@) == block_before + user_block(
                    user_name@,
                    devs@.take(j as int),
                ),
            decreases devs.len() - j,
        {
            let d = StorageDevice {
                user_name: user_name.clone(),
                device_name: devs[j].clone(),
            };
            proof {
                assert(devs@.take(j + 1).drop_last() =~= devs@.take(j as int));
                assert(devs@.take(j + 1).last() == devs@[j as int]);
                assert(devices_view(devices@.push(d)) =~= devices_view(devices@).push(d@));
                assert(devices_view(devices@).push(d@) =~= block_before + user_block(
                    user_name@,
                    devs@.take(j + 1),
                ));
            }
            devices.push(d);
            j = j + 1;
        }
        proof {
            assert(devs@.take(devs@.len() as int) =~= devs@);
            assert(users@.take(i + 1).drop_last() =~= users@.take(i as int));
            assert(users@.take(i + 1).last() == users@[i as int]);
            assert(devices_view(devices@) =~= cross_devices(users@.take(i + 1)));
        }
        i = i + 1;
    }
    proof {
        assert(users@.take(users@.len() as int) =~= users@);
    }
    devices
}

/// A user directory with no device subdirectories contributes no devices:
/// removing such a user from the listing leaves the device set unchanged.
pub proof fn lemma_empty_user_contributes_nothing(users: Seq<(String, Vec<String>)>, i: int)
    requires
        0 <= i < users.len(),
        users[i].1@.len() == 0,
    ensures
        cross_devices(users) == cross_devices(users.remove(i)),
    decreases users.len(),
{
    if i == users.len() - 1 {
        assert(users.remove(i) =~= users.drop_last());
        assert(user_block(users.last().0@, users.last().1@) =~= Seq::<(Seq<char>, Seq<char>)>::empty());
        assert(cross_devices(users) =~= cross_devices(users.drop_last()));
    } else {
        lemma_empty_user_contributes_nothing(users.drop_last(), i);
        assert(users.remove(i).drop_last() =~= users.drop_last().remove(i));
        assert(users.remove(i).last() == users.last());
        assert(cross_devices(users.remove(i)) == cross_devices(users.drop_last().remove(i))
            + user_block(users.last().0@, users.last().1@));
    }
}

} // verus!
