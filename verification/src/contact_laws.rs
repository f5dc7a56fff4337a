//! What a user can tell of the members of its groups, of its contacts and of itself.
use crate::delivery::DeliveryService;
use crate::law_terms::{kept_places, lists_places};
use crate::mls::{identity_at, leaf_of, AuthorizationPolicy, Member, MlsState};
use crate::services::{listed_name, lists, ClientInfo};
use crate::text::texts;
use crate::user::{AgentType, Contact, Group, User};
use vstd::prelude::*;
use vstd::utf8::*;

verus! {

/// The member at a place is the first with its leaf.
pub proof fn first_with_leaf(members: Seq<Member>, index: u32, j: int)
    requires
        0 <= j < members.len(),
        members[j].index == index,
        forall|k: int| 0 <= k < j ==> (#[trigger] members[k]).index != index,
    ensures
        identity_at(members, index) == Some(members[j].identity@),
    decreases j,
{
    if j > 0 {
        assert(members[0].index != index);
        let rest = members.drop_first();
        assert forall|k: int| 0 <= k < j - 1 implies (#[trigger] rest[k]).index != index by {
            assert(rest[k] == members[k + 1]);
        }
        first_with_leaf(rest, index, j - 1);
    }
}

/// The identity found by a leaf is that of the first member with it, if there is one.
pub proof fn leaf_found_or_not(members: Seq<Member>, index: u32)
    ensures
        identity_at(members, index) is Some ==> exists|j: int|
            0 <= j < members.len() && (#[trigger] members[j]).index == index && Some(
                members[j].identity@,
            ) == identity_at(members, index) && forall|k: int|
                0 <= k < j ==> (#[trigger] members[k]).index != index,
        identity_at(members, index) is None ==> forall|j: int|
            0 <= j < members.len() ==> (#[trigger] members[j]).index != index,
    decreases members.len(),
{
    if members.len() > 0 {
        if members[0].index != index {
            let rest = members.drop_first();
            leaf_found_or_not(rest, index);
            assert forall|k: int| 0 < k < members.len() implies #[trigger] members[k] == rest[k - 1] by {}
            if identity_at(members, index) is Some {
                let j = choose|j: int|
                    0 <= j < rest.len() && (#[trigger] rest[j]).index == index && Some(
                        rest[j].identity@,
                    ) == identity_at(rest, index) && forall|k: int|
                        0 <= k < j ==> (#[trigger] rest[k]).index != index;
                assert(members[j + 1] == rest[j]);
            }
        }
    }
}

/// The leaf found by an identity is that of the first member with it, if there is one.
pub proof fn identity_found_or_not(members: Seq<Member>, identity: Seq<u8>)
    ensures
        leaf_of(members, identity) is Some ==> exists|j: int|
            0 <= j < members.len() && (#[trigger] members[j]).identity@ == identity && Some(
                members[j].index,
            ) == leaf_of(members, identity) && forall|k: int|
                0 <= k < j ==> (#[trigger] members[k]).identity@ != identity,
        leaf_of(members, identity) is None ==> forall|j: int|
            0 <= j < members.len() ==> (#[trigger] members[j]).identity@ != identity,
    decreases members.len(),
{
    if members.len() > 0 {
        if members[0].identity@ != identity {
            let rest = members.drop_first();
            identity_found_or_not(rest, identity);
            assert forall|k: int| 0 < k < members.len() implies #[trigger] members[k] == rest[k - 1] by {}
            if leaf_of(members, identity) is Some {
                let j = choose|j: int|
                    0 <= j < rest.len() && (#[trigger] rest[j]).identity@ == identity && Some(
                        rest[j].index,
                    ) == leaf_of(rest, identity) && forall|k: int|
                        0 <= k < j ==> (#[trigger] rest[k]).identity@ != identity;
                assert(members[j + 1] == rest[j]);
            }
        }
    }
}

/// Whoever has a leaf is found by it: the identity is that of the first member with the
/// leaf, and none is found exactly if no member has it.
pub proof fn members_are_found_by_leaf(state: MlsState, index: u32, r: Option<&Vec<u8>>)
    requires
        call_ensures(MlsState::member_at, (&state, index), r),
    ensures
        match r {
            Some(identity) => exists|j: int|
                0 <= j < state.members@.len() && (#[trigger] state.members@[j]).index == index
                    && identity@ == state.members@[j].identity@ && forall|k: int|
                    0 <= k < j ==> (#[trigger] state.members@[k]).index != index,
            None => forall|j: int|
                0 <= j < state.members@.len() ==> (#[trigger] state.members@[j]).index != index,
        },
{
    leaf_found_or_not(state.members@, index);
}

/// Whoever has an identity is found by it: the leaf is that of the first member with the
/// identity, and none is found exactly if no member has it.
pub proof fn members_are_found_by_identity(state: MlsState, identity: Vec<u8>, r: Option<u32>)
    requires
        call_ensures(MlsState::leaf_with, (&state, &identity), r),
    ensures
        match r {
            Some(leaf) => exists|j: int|
                0 <= j < state.members@.len() && (#[trigger] state.members@[j]).identity@
                    == identity@ && leaf == state.members@[j].index && forall|k: int|
                    0 <= k < j ==> (#[trigger] state.members@[k]).identity@ != identity@,
            None => forall|j: int|
                0 <= j < state.members@.len() ==> (#[trigger] state.members@[j]).identity@
                    != identity@,
        },
{
    identity_found_or_not(state.members@, identity@);
}

/// A member is found by name: some member has the encoding of the name for its identity, and
/// the leaf of the first such member is given; without one the member is unknown.
pub proof fn members_are_found_by_name(
    user: User,
    name: String,
    group: Group,
    r: Result<u32, String>,
)
    requires
        call_ensures(User::find_member_index, (&user, &name, &group), r),
    ensures
        names_a_member(group.mls_group.members@, name@, r),
{
    identity_found_or_not(group.mls_group.members@, encode_utf8(name@));
}

/// The result is the leaf of the first member with this name, or the error for a name that
/// no member has.
pub open spec fn names_a_member(members: Seq<Member>, name: Seq<char>, r: Result<u32, String>) -> bool {
    match r {
        Ok(leaf) => exists|j: int|
            0 <= j < members.len() && (#[trigger] members[j]).identity@ == encode_utf8(name)
                && leaf == members[j].index && forall|k: int|
                0 <= k < j ==> (#[trigger] members[k]).identity@ != encode_utf8(name),
        Err(e) => e@ == "Unknown member"@ && forall|j: int|
            0 <= j < members.len() ==> (#[trigger] members[j]).identity@ != encode_utf8(name),
    }
}

/// Removing a member by name takes the leaf of the first member with that name, whichever
/// leaf that is; it is refused only if the user is not in the group or no member has the
/// name.
pub proof fn every_member_can_be_removed(
    user: User,
    name: String,
    group_name: String,
    r: Result<u32, String>,
)
    requires
        call_ensures(User::remove, (&user, &name, &group_name), r),
    ensures
        user.groups@.contains_key(group_name@) ==> names_a_member(
            user.groups@[group_name@].mls_group.members@,
            name@,
            r,
        ),
        !user.groups@.contains_key(group_name@) ==> (r matches Err(e) && e@ == "No group with name "@
            + group_name@ + " known."@),
{
    identity_found_or_not(user.groups@[group_name@].mls_group.members@, encode_utf8(name@));
}

/// A new user has its name and its way of delivery and knows nothing: no contacts, groups,
/// key packages or commits, and no records wait.
pub open spec fn starts_empty(user: User, username: Seq<char>, ds: DeliveryService) -> bool {
    &&& user.username@ == username
    &&& user.ds == ds
    &&& forall|k: Seq<u8>| !#[trigger] user.contacts@.contains_key(k)
    &&& forall|k: Seq<char>| !#[trigger] user.groups@.contains_key(k)
    &&& forall|k: Seq<u8>| !#[trigger] user.key_packages@.contains_key(k)
    &&& forall|k: Seq<char>| !#[trigger] user.pending_commits@.contains_key(k)
    &&& forall|k: Seq<char>| !#[trigger] user.active@.contains_key(k)
    &&& user.file_buffer@.len() == 0
}

/// A new orchestrated user starts empty and without orchestrators.
pub proof fn orchestrated_users_start_empty(username: String, ds: DeliveryService, r: User)
    requires
        call_ensures(User::new_orchestrated, (username, ds), r),
    ensures
        starts_empty(r, username@, ds),
        r.agent_type matches AgentType::Orchestrator(known) && forall|k: Seq<char>|
            !#[trigger] known@.contains_key(k),
{
}

/// A new independent user starts empty.
pub proof fn independent_users_start_empty(username: String, ds: DeliveryService, r: User)
    requires
        call_ensures(User::new_independent, (username, ds), r),
    ensures
        starts_empty(r, username@, ds),
        r.agent_type is Independent,
{
}

/// A user is known to others by the encoding of its name.
pub proof fn identities_spell_names(user: User, r: Vec<u8>)
    requires
        call_ensures(User::own_identity, (&user,), r),
    ensures
        r@ == encode_utf8(user.username@),
{
}

/// A contact is found by name exactly if there is one with that name, and it has the name.
pub proof fn contacts_are_found_by_name(user: User, name: String, r: Result<&Contact, String>)
    requires
        call_ensures(User::contact_named, (&user, &name), r),
    ensures
        r is Ok <==> exists|id: Seq<u8>| #[trigger]
            user.contacts@.contains_key(id) && user.contacts@[id].username@ == name@,
        r matches Ok(c) ==> c.username@ == name@ && exists|id: Seq<u8>| #[trigger]
            user.contacts@.contains_key(id) && user.contacts@[id] == *c,
        r matches Err(e) ==> e@ == "No contact with name "@ + name@ + " known."@,
{
}

/// The addresses are those of the members other than the user, one for each and in their
/// order: the address of the contact where the member is one, else its identity.
pub open spec fn addresses_the_others(user: User, members: Seq<Member>, r: Seq<Vec<u8>>, places: Seq<
    int,
>) -> bool {
    &&& lists_places(
        places,
        members.len(),
        |i: int| members[i].identity@ != encode_utf8(user.username@),
    )
    &&& r.len() == places.len()
    &&& forall|k: int|
        0 <= k < r.len() ==> (#[trigger] r[k])@ == {
            let identity = members[places[k]].identity@;
            if user.contacts@.contains_key(identity) {
                user.contacts@[identity].id@
            } else {
                identity
            }
        }
}

/// The addresses of the other members are those of all members but the user, in order.
pub proof fn others_are_addressed(user: User, members: Seq<Member>, r: Seq<Vec<u8>>) -> (places: Seq<int>)
    requires
        r.map_values(|b: Vec<u8>| b@) == user.recipients_of(members),
    ensures
        addresses_the_others(user, members, r, places),
{
    let f = |m: Member| user.recipient(m.identity@);
    let wanted = |i: int| members[i].identity@ != encode_utf8(user.username@);
    let places = kept_places(members, f, wanted);
    let bytes = r.map_values(|b: Vec<u8>| b@);
    assert(user.recipients_of(members) == members.filter_map(f));
    assert(bytes.len() == r.len());
    assert forall|k: int| 0 <= k < r.len() implies (#[trigger] r[k])@ == {
        let identity = members[places[k]].identity@;
        if user.contacts@.contains_key(identity) {
            user.contacts@[identity].id@
        } else {
            identity
        }
    } by {
        assert(bytes[k] == r[k]@);
        assert(f(members[places[k]]) == Some(bytes[k]));
        assert(wanted(places[k]));
    }
    places
}

/// Messages to a group are addressed to all members but the user.
pub proof fn messages_are_addressed_to_the_others(user: User, state: MlsState, r: Vec<Vec<u8>>) -> (places:
    Seq<int>)
    requires
        call_ensures(User::mls_recipients, (&user, &state), r),
    ensures
        addresses_the_others(user, state.members@, r@, places),
{
    others_are_addressed(user, state.members@, r@)
}

/// The clients of a group that messages go to are all members but the user.
pub proof fn groups_are_addressed_through_their_members(user: User, group: Group, r: Vec<Vec<u8>>) -> (places:
    Seq<int>)
    requires
        call_ensures(User::recipients, (&user, &group), r),
    ensures
        addresses_the_others(user, group.mls_group.members@, r@, places),
{
    others_are_addressed(user, group.mls_group.members@, r@)
}

/// The members of a group are listed by name, one for each address that messages to the group
/// go to: under the name of the contact with that address, else under the one it spells. A
/// group that the user is not in has none.
pub proof fn members_are_listed_by_name(
    user: User,
    group_name: String,
    addresses: Vec<Vec<u8>>,
    r: Vec<String>,
)
    requires
        call_ensures(User::members_of_group, (&user, &group_name), r),
        user.groups@.contains_key(group_name@) ==> call_ensures(
            User::recipients,
            (&user, &user.groups@[group_name@]),
            addresses,
        ),
    ensures
        !user.groups@.contains_key(group_name@) ==> r@.len() == 0,
        user.groups@.contains_key(group_name@) ==> {
            &&& r@.len() == addresses@.len()
            &&& forall|i: int|
                0 <= i < r@.len() ==> (#[trigger] r@[i])@ == if user.contacts@.contains_key(
                    addresses@[i]@,
                ) {
                    user.contacts@[addresses@[i]@].username@
                } else {
                    decode_utf8(addresses@[i]@)
                }
        },
{
    let names = r@.map_values(|s: String| s@);
    let bytes = addresses@.map_values(|b: Vec<u8>| b@);
    assert(names.len() == r@.len());
    if user.groups@.contains_key(group_name@) {
        assert(bytes.len() == addresses@.len());
        assert forall|i: int| 0 <= i < r@.len() implies (#[trigger] r@[i])@
            == if user.contacts@.contains_key(addresses@[i]@) {
            user.contacts@[addresses@[i]@].username@
        } else {
            decode_utf8(addresses@[i]@)
        } by {
            assert(names[i] == r@[i]@);
            assert(bytes[i] == addresses@[i]@);
        }
    }
}

/// All members of a group are counted; a group that the user is not in counts as one.
pub proof fn members_are_counted(user: User, group_name: String, r: usize)
    requires
        call_ensures(User::number_of_members, (&user, &group_name), r),
    ensures
        user.groups@.contains_key(group_name@) ==> r
            == user.groups@[group_name@].mls_group.members@.len(),
        !user.groups@.contains_key(group_name@) ==> r == 1,
{
}

/// The contacts outside a group are those to whose address no message to the group goes, each
/// listed once under its name. Of a group that the user is not in, none is listed.
pub proof fn outsiders_get_no_messages(
    user: User,
    group_name: String,
    addresses: Vec<Vec<u8>>,
    r: Vec<String>,
) -> (places: Seq<int>)
    requires
        call_ensures(User::not_members_of_group, (&user, &group_name), r),
        user.groups@.contains_key(group_name@) ==> call_ensures(
            User::recipients,
            (&user, &user.groups@[group_name@]),
            addresses,
        ),
    ensures
        user.contacts.order().no_duplicates(),
        forall|id: Seq<u8>| #[trigger]
            user.contacts.order().contains(id) <==> user.contacts@.contains_key(id),
        !user.groups@.contains_key(group_name@) ==> r@.len() == 0,
        user.groups@.contains_key(group_name@) ==> {
            let ids = user.contacts.order();
            &&& lists_places(
                places,
                ids.len(),
                |i: int|
                    forall|j: int|
                        0 <= j < addresses@.len() ==> (#[trigger] addresses@[j])@
                            != user.contacts@[ids[i]].id@,
            )
            &&& r@.len() == places.len()
            &&& forall|k: int|
                0 <= k < r@.len() ==> (#[trigger] r@[k])@
                    == user.contacts@[ids[places[k]]].username@
        },
{
    let names = r@.map_values(|s: String| s@);
    assert(names.len() == r@.len());
    if user.groups@.contains_key(group_name@) {
        let ids = user.contacts.order();
        let others = addresses@.map_values(|b: Vec<u8>| b@);
        let f = |id: Seq<u8>|
            if others.contains(user.contacts@[id].id@) {
                None
            } else {
                Some(user.contacts@[id].username@)
            };
        let wanted = |i: int|
            forall|j: int|
                0 <= j < addresses@.len() ==> (#[trigger] addresses@[j])@
                    != user.contacts@[ids[i]].id@;
        assert forall|i: int| 0 <= i < ids.len() implies (#[trigger] wanted(i) <==> f(ids[i]) is Some) by {
            let id = user.contacts@[ids[i]].id@;
            if others.contains(id) {
                let j = others.index_of(id);
                assert(addresses@[j]@ == id);
            }
            if !wanted(i) {
                let j = choose|j: int|
                    0 <= j < addresses@.len() && (#[trigger] addresses@[j])@ == id;
                assert(others[j] == id);
            }
        }
        let places = kept_places(ids, f, wanted);
        assert(others == user.others_in(group_name@));
        assert(ids.filter_map(f) == user.contacts_outside(ids, others)) by {
            let g = |id: Seq<u8>|
                if others.contains(user.contacts@[id].id@) {
                    None
                } else {
                    Some(user.contacts@[id].username@)
                };
            assert(f =~= g);
        }
        assert forall|k: int| 0 <= k < r@.len() implies (#[trigger] r@[k])@
            == user.contacts@[ids[places[k]]].username@ by {
            assert(names[k] == r@[k]@);
            assert(f(ids[places[k]]) == Some(names[k]));
        }
        places
    } else {
        Seq::empty()
    }
}

/// The groups that the user is in are listed, each once.
pub proof fn groups_are_listed_once(user: User, r: Vec<String>, again: Vec<String>)
    requires
        call_ensures(User::list_of_groups, (&user,), r),
        call_ensures(User::group_list, (&user,), again),
    ensures
        lists_groups(user, r@),
        lists_groups(user, again@),
{
    groups_listed(user, r@);
    groups_listed(user, again@);
}

/// The names are those of the groups that the user is in, each once.
pub open spec fn lists_groups(user: User, r: Seq<String>) -> bool {
    &&& forall|i: int, j: int|
        0 <= i < j < r.len() ==> (#[trigger] r[i])@ != (#[trigger] r[j])@
    &&& forall|i: int| 0 <= i < r.len() ==> user.groups@.contains_key((#[trigger] r[i])@)
    &&& forall|name: Seq<char>| #[trigger]
        user.groups@.contains_key(name) ==> exists|i: int|
            0 <= i < r.len() && (#[trigger] r[i])@ == name
}

proof fn groups_listed(user: User, r: Seq<String>)
    requires
        texts(r).no_duplicates(),
        forall|name: Seq<char>| #[trigger]
            texts(r).contains(name) <==> user.groups@.contains_key(name),
    ensures
        lists_groups(user, r),
{
    let names = texts(r);
    assert forall|i: int, j: int| 0 <= i < j < r.len() implies (#[trigger] r[i])@ != (
    #[trigger] r[j])@ by {
        assert(names[i] == r[i]@ && names[j] == r[j]@);
    }
    assert forall|i: int| 0 <= i < r.len() implies user.groups@.contains_key((#[trigger] r[i])@) by {
        assert(names[i] == r[i]@);
        assert(names.contains(r[i]@));
    }
    assert forall|name: Seq<char>| #[trigger] user.groups@.contains_key(name) implies exists|i: int|
        0 <= i < r.len() && (#[trigger] r[i])@ == name by {
        assert(names.contains(name));
        let i = names.index_of(name);
        assert(r[i]@ == name);
    }
}

/// A user who is out of step with a group, or does not know whether it is in step, may not
/// issue updates there. One who is in step may, under the policy for the first or the last
/// member only with that member's leaf; in a group that it is not in, that is an error.
pub proof fn only_users_in_step_are_authorised(
    user: User,
    group_name: String,
    policy: AuthorizationPolicy,
    r: Result<bool, String>,
)
    requires
        call_ensures(User::is_authorised, (&user, &group_name, policy), r),
    ensures
        !user.active@.contains_key(group_name@) || !user.active@[group_name@].0 ==> (r matches Ok(b)
            && !b),
        user.active@.contains_key(group_name@) && user.active@[group_name@].0 ==> {
            let state = user.groups@[group_name@].mls_group;
            &&& r is Ok <==> user.groups@.contains_key(group_name@)
            &&& r matches Err(e) ==> e@ == "Unknown group"@
            &&& r matches Ok(b) ==> match policy {
                AuthorizationPolicy::Random => b,
                AuthorizationPolicy::First => b <==> state.own_leaf_index == 0,
                AuthorizationPolicy::Last => state.members@.len() <= u32::MAX ==> (b
                    <==> state.own_leaf_index + 1 == state.members@.len()),
            }
        },
{
}

/// Adding a contact makes it known under its identity, with its name, in place of any contact
/// that had the identity; all other contacts stay. The user itself is never added.
pub proof fn contacts_are_kept_by_identity(
    before: User,
    after: User,
    contact: Contact,
    r: Result<(), String>,
)
    requires
        exists|u: &mut User|
            *u == before && *final(u) == after && #[trigger] call_ensures(
                User::add_contact,
                (u, contact),
                r,
            ),
    ensures
        r is Ok,
        after == (User { contacts: after.contacts, ..before }),
        contact.id@ == encode_utf8(before.username@) ==> after.contacts@ == before.contacts@,
        contact.id@ != encode_utf8(before.username@) ==> after.contacts@.contains_key(contact.id@)
            && after.contacts@[contact.id@] == contact,
        forall|id: Seq<u8>|
            id != contact.id@ ==> (#[trigger] after.contacts@.contains_key(id)
                <==> before.contacts@.contains_key(id)),
        forall|id: Seq<u8>|
            id != contact.id@ && before.contacts@.contains_key(id) ==> #[trigger] after.contacts@[id]
                == before.contacts@[id],
{
}

proof fn last_listing_counts(clients: Seq<ClientInfo>, id: Seq<u8>)
    ensures
        lists(clients, id) ==> exists|i: int|
            0 <= i < clients.len() && (#[trigger] clients[i]).id@ == id && clients[i].client_name@
                == listed_name(clients, id) && forall|j: int|
                i < j < clients.len() ==> (#[trigger] clients[j]).id@ != id,
        !lists(clients, id) ==> forall|i: int|
            0 <= i < clients.len() ==> (#[trigger] clients[i]).id@ != id,
    decreases clients.len(),
{
    if clients.len() > 0 {
        let rest = clients.drop_last();
        let n = clients.len() - 1;
        assert(clients.last() == clients[n]);
        assert(forall|i: int| 0 <= i < n ==> #[trigger] clients[i] == rest[i]);
        if clients[n].id@ == id {
            assert(clients[n].id@ == id && clients[n].client_name@ == listed_name(clients, id));
        } else {
            last_listing_counts(rest, id);
            if lists(rest, id) {
                let i = choose|i: int|
                    0 <= i < rest.len() && (#[trigger] rest[i]).id@ == id && rest[i].client_name@
                        == listed_name(rest, id) && forall|j: int|
                        i < j < rest.len() ==> (#[trigger] rest[j]).id@ != id;
                assert(clients[i] == rest[i]);
            }
        }
    }
}

/// Of the clients that the server lists, every one but the user is a contact afterwards, with
/// the name that is listed last for its identity; all other contacts stay as they were. If
/// the server does not list them, nothing changes.
pub proof fn listed_clients_become_contacts(
    before: User,
    after: User,
    reply: Result<Vec<ClientInfo>, String>,
    r: Result<(), String>,
)
    requires
        exists|u: &mut User|
            *u == before && *final(u) == after && #[trigger] call_ensures(
                User::update_clients,
                (u, reply),
                r,
            ),
    ensures
        r is Ok,
        after == (User { contacts: after.contacts, ..before }),
        reply is Err ==> after.contacts == before.contacts,
        reply matches Ok(clients) ==> {
            &&& forall|i: int|
                0 <= i < clients@.len() && (#[trigger] clients@[i]).id@ != encode_utf8(
                    before.username@,
                ) ==> after.contacts@.contains_key(clients@[i].id@)
                    && after.contacts@[clients@[i].id@].id@ == clients@[i].id@ && ((forall|j: int|
                    i < j < clients@.len() ==> (#[trigger] clients@[j]).id@ != clients@[i].id@)
                    ==> after.contacts@[clients@[i].id@].username@ == clients@[i].client_name@)
            &&& forall|id: Seq<u8>|
                (id == encode_utf8(before.username@) || forall|i: int|
                    0 <= i < clients@.len() ==> (#[trigger] clients@[i]).id@ != id) ==> (
                #[trigger] after.contacts@.contains_key(id) <==> before.contacts@.contains_key(id))
                    && (before.contacts@.contains_key(id) ==> after.contacts@[id]
                    == before.contacts@[id])
        },
{
    if let Ok(clients) = reply {
        let own = encode_utf8(before.username@);
        assert forall|i: int| 0 <= i < clients@.len() && (#[trigger] clients@[i]).id@ != own implies
            after.contacts@.contains_key(clients@[i].id@) && after.contacts@[clients@[i].id@].id@
            == clients@[i].id@ && ((forall|j: int|
            i < j < clients@.len() ==> (#[trigger] clients@[j]).id@ != clients@[i].id@)
            ==> after.contacts@[clients@[i].id@].username@ == clients@[i].client_name@) by {
            let id = clients@[i].id@;
            last_listing_counts(clients@, id);
            assert(after.contacts@[id].id@ == id);
            if forall|j: int| i < j < clients@.len() ==> (#[trigger] clients@[j]).id@ != id {
                let k = choose|k: int|
                    0 <= k < clients@.len() && (#[trigger] clients@[k]).id@ == id
                        && clients@[k].client_name@ == listed_name(clients@, id) && forall|j: int|
                        k < j < clients@.len() ==> (#[trigger] clients@[j]).id@ != id;
                assert(k == i);
            }
        }
        assert forall|id: Seq<u8>|
            (id == own || forall|i: int|
                0 <= i < clients@.len() ==> (#[trigger] clients@[i]).id@ != id) implies (
        #[trigger] after.contacts@.contains_key(id) <==> before.contacts@.contains_key(id)) && (
        before.contacts@.contains_key(id) ==> after.contacts@[id] == before.contacts@[id]) by {
            last_listing_counts(clients@, id);
            if before.contacts@.contains_key(id) {
                assert(after.contacts@[id] == before.contacts@[id]);
            }
        }
    }
}

} // verus!
