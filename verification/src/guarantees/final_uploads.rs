//! What a request that makes an upload of others does.

use vstd::prelude::*;

use crate::config::RustusConf;
use crate::fields::field_text;
use crate::file_info::Upload;
use crate::guarantees::creation::{
    answers_creation, counted_at_creation, heard_of_creation, is_welcome, lemma_answers_creation,
    metadata_told, reason, told_when_saved,
};
use crate::guarantees::requests::{heard, number_told};
use crate::laws::addressable;
use crate::notifiers::Hook;
use crate::protocol::creation::routes::{id_in, ids_in, parts_in, planned, total, CreateModel};
use crate::protocol::exchange::{ActionModel, EffectModel, EventModel, Request};
use crate::protocol::extensions::Extensions;
use crate::protocol::storing::{
    bytes_of, creating, creation, fresh, known, law_final_creation, listed, perform, records, run,
    sound, without, Around, Stored,
};
use crate::text::{
    joined, law_split_in_two, law_split_joined, law_trimmed, lemma_split_alone, lemma_split_last,
    lemma_trimmed_keeps, split, trim_back, trim_front, trimmed, white_space,
};

verus! {

broadcast use vstd::string::group_string_axioms;

/// An address that ends in a slash and an id, and holds no space.
pub open spec fn leads_to(address: Seq<char>, id: Seq<char>) -> bool {
    &&& !address.contains(' ')
    &&& exists|front: Seq<char>| address == #[trigger] (front + seq!['/'] + id)
}

proof fn lemma_trim_before(a: Seq<char>, b: Seq<char>, p: spec_fn(char) -> bool)
    requires
        b.len() > 0,
        !p(b[0]),
    ensures
        trim_front(a + b, p) == trim_front(a, p) + b,
    decreases a.len(),
{
    if a.len() == 0 {
        assert(a + b =~= b);
        assert(trim_front(a, p) + b =~= b);
    } else if p(a[0]) {
        assert((a + b).drop_first() =~= a.drop_first() + b);
        lemma_trim_before(a.drop_first(), b, p);
    }
}

/// The id at the end of an address is found.
proof fn lemma_leads(address: Seq<char>, id: Seq<char>)
    requires
        leads_to(address, id),
        addressable(id),
    ensures
        id_in(address) == id,
        trimmed(id).len() > 0,
{
    let front = choose|front: Seq<char>| address == #[trigger] (front + seq!['/'] + id);
    let p = |c: char| white_space(c);
    let tail = seq!['/'] + id;
    assert(address =~= front + tail);
    lemma_trim_before(front, tail, p);
    let rest = trim_front(front, p) + tail;
    assert(rest.last() == id.last());
    assert(trim_back(rest, p) == rest);
    assert(rest =~= trim_front(front, p) + seq!['/'] + id);
    lemma_split_last(trim_front(front, p), '/', id);
    lemma_trimmed_keeps(id);
}

proof fn lemma_ids_in_two(a: Seq<Seq<char>>, b: Seq<Seq<char>>)
    ensures
        ids_in(a + b) == ids_in(a) + ids_in(b),
    decreases b.len(),
{
    if b.len() == 0 {
        assert(a + b =~= a);
        assert(ids_in(a) + ids_in(b) =~= ids_in(a));
    } else {
        assert((a + b).drop_last() =~= a + b.drop_last());
        assert((a + b).last() == b.last());
        lemma_ids_in_two(a, b.drop_last());
        assert(ids_in(a + b) =~= ids_in(a) + ids_in(b));
    }
}

proof fn lemma_ids_of(addresses: Seq<Seq<char>>, ids: Seq<Seq<char>>)
    requires
        addresses.len() == ids.len(),
        forall|i: int|
            0 <= i < ids.len() ==> addressable(#[trigger] ids[i]) && leads_to(addresses[i], ids[i]),
    ensures
        ids_in(addresses) == ids,
    decreases ids.len(),
{
    if ids.len() == 0 {
        assert(ids_in(addresses) =~= ids);
    } else {
        let n = ids.len() - 1;
        assert forall|i: int| 0 <= i < n implies addressable(#[trigger] ids.drop_last()[i])
            && leads_to(addresses.drop_last()[i], ids.drop_last()[i]) by {
            assert(ids[i] == ids.drop_last()[i]);
        }
        lemma_ids_of(addresses.drop_last(), ids.drop_last());
        assert(addressable(ids[n]));
        lemma_leads(addresses[n], ids[n]);
        assert(ids_in(addresses) =~= ids);
    }
}

/// Addresses behind `final;`, with spaces between them, list the ids at their ends, all of them and
/// in their order.
pub proof fn law_listed_ids(addresses: Seq<Seq<char>>, ids: Seq<Seq<char>>)
    requires
        ids.len() > 0,
        addresses.len() == ids.len(),
        forall|i: int|
            0 <= i < ids.len() ==> addressable(#[trigger] ids[i]) && leads_to(addresses[i], ids[i]),
    ensures
        parts_in("final;"@ + joined(addresses, seq![' '])) == ids,
{
    reveal_strlit("final;");
    let list = joined(addresses, seq![' ']);
    assert(("final;"@ + list).skip("final;"@.len() as int) =~= list);
    assert forall|i: int| 0 <= i < addresses.len() implies !(#[trigger] addresses[i]).contains(
        ' ',
    ) by {
        assert(addressable(ids[i]));
    }
    law_split_joined(addresses, ' ');
    lemma_ids_of(addresses, ids);
}

/// A list with a space in it lists what both of its sides list. An address without a space lists at
/// most one id, which is what is behind its last slash, and blanks list nothing.
pub proof fn law_listed_in_two(a: Seq<char>, b: Seq<char>, blank: Seq<char>)
    requires
        !blank.contains('/'),
        forall|i: int| 0 <= i < blank.len() ==> white_space(#[trigger] blank[i]),
    ensures
        parts_in("final;"@ + a + seq![' '] + b) == parts_in("final;"@ + a) + parts_in("final;"@ + b),
        !a.contains(' ') ==> parts_in("final;"@ + a).len() <= 1,
        !blank.contains(' ') ==> parts_in("final;"@ + blank).len() == 0,
        !a.contains(' ') && !blank.contains(' ') ==> parts_in("final;"@ + (a + seq!['/'] + blank)).len()
            == 0,
{
    reveal_strlit("final;");
    let n = "final;"@.len() as int;
    assert(("final;"@ + a + seq![' '] + b).skip(n) =~= a + seq![' '] + b);
    assert(("final;"@ + a).skip(n) =~= a);
    assert(("final;"@ + b).skip(n) =~= b);
    assert(("final;"@ + blank).skip(n) =~= blank);
    law_split_in_two(a, ' ', b);
    lemma_ids_in_two(split(a, ' '), split(b, ' '));
    let none = Seq::<char>::empty();
    reveal_with_fuel(ids_in, 2);
    if !a.contains(' ') {
        lemma_split_alone(a, ' ');
        assert(seq![a].drop_last() =~= seq![]);
    }
    if !blank.contains(' ') {
        lemma_split_alone(blank, ' ');
        assert(seq![blank].drop_last() =~= seq![]);
        law_trimmed(blank, none, none);
        assert(blank + none + none =~= blank);
        lemma_split_alone(none, '/');
        law_trimmed(none, none, none);
        assert(none + none + none =~= none);
    }
    if !a.contains(' ') && !blank.contains(' ') {
        let address = a + seq!['/'] + blank;
        assert(("final;"@ + address).skip(n) =~= address);
        assert(!address.contains(' ')) by {
            if address.contains(' ') {
                let j = choose|j: int| 0 <= j < address.len() && address[j] == ' ';
                if j < a.len() {
                    assert(a[j] == ' ');
                } else {
                    assert(blank[j - a.len() - 1] == ' ');
                }
            }
        }
        lemma_split_alone(address, ' ');
        assert(seq![address].drop_last() =~= seq![]);
        lemma_blank_end(a, blank);
    }
}

/// An address that ends in a slash, and blanks, has nothing behind the slash.
proof fn lemma_blank_end(a: Seq<char>, blank: Seq<char>)
    requires
        forall|i: int| 0 <= i < blank.len() ==> white_space(#[trigger] blank[i]),
    ensures
        trimmed(id_in(a + seq!['/'] + blank)).len() == 0,
{
    let p = |c: char| white_space(c);
    let none = Seq::<char>::empty();
    let tail = seq!['/'] + blank;
    assert(a + seq!['/'] + blank =~= a + tail);
    lemma_trim_before(a, tail, p);
    let front = trim_front(a, p) + seq!['/'];
    assert(trim_front(a, p) + tail =~= front + blank);
    lemma_trim_behind(front, blank);
    assert(front =~= trim_front(a, p) + seq!['/'] + none);
    lemma_split_last(trim_front(a, p), '/', none);
    law_trimmed(none, none, none);
    assert(none + none + none =~= none);
}

proof fn lemma_trim_behind(s: Seq<char>, blank: Seq<char>)
    requires
        s.len() > 0,
        !white_space(s.last()),
        forall|i: int| 0 <= i < blank.len() ==> white_space(#[trigger] blank[i]),
    ensures
        trim_back(s + blank, |c: char| white_space(c)) == s,
    decreases blank.len(),
{
    if blank.len() == 0 {
        assert(s + blank =~= s);
    } else {
        let less = blank.drop_last();
        assert forall|i: int| 0 <= i < less.len() implies white_space(#[trigger] less[i]) by {
            assert(less[i] == blank[i]);
        }
        assert((s + blank).drop_last() =~= s + less);
        assert(white_space(blank[blank.len() - 1]));
        lemma_trim_behind(s, less);
    }
}

/// The bytes of some uploads, one behind the other.
pub open spec fn bytes_of_all(stored: Stored, ids: Seq<Seq<char>>) -> Seq<u8> {
    ids.map_values(|id: Seq<char>| stored.files[id]).flatten()
}

proof fn lemma_bytes_of_all(stored: Stored, ids: Seq<Seq<char>>)
    requires
        sound(stored),
        known(stored, ids),
    ensures
        bytes_of(stored.files, records(stored, ids)) == bytes_of_all(stored, ids),
        total(records(stored, ids)) == bytes_of_all(stored, ids).len(),
    decreases ids.len(),
{
    let parts = records(stored, ids);
    let all = ids.map_values(|id: Seq<char>| stored.files[id]);
    all.lemma_flatten_and_flatten_alt_are_equivalent();
    if ids.len() > 0 {
        let fewer = ids.drop_last();
        assert forall|i: int| 0 <= i < fewer.len() implies stored.infos.contains_key(
            #[trigger] fewer[i],
        ) by {
            assert(fewer[i] == ids[i]);
        }
        lemma_bytes_of_all(stored, fewer);
        assert(stored.infos.contains_key(ids[ids.len() - 1]));
        assert(records(stored, fewer) =~= parts.drop_last());
        let less = fewer.map_values(|id: Seq<char>| stored.files[id]);
        assert(all.drop_last() =~= less);
        less.lemma_flatten_and_flatten_alt_are_equivalent();
    }
}

proof fn lemma_left(stored: Stored, parts: Seq<Upload>, n: int, key: Seq<char>)
    requires
        0 <= n <= parts.len(),
    ensures
        ({
            let left = without(stored, parts, n);
            let gone = exists|i: int| 0 <= i < n && (#[trigger] parts[i]).id == key;
            &&& left.infos.contains_key(key) <==> stored.infos.contains_key(key) && !gone
            &&& left.files.contains_key(key) <==> stored.files.contains_key(key) && !gone
            &&& left.infos.contains_key(key) ==> left.infos[key] == stored.infos[key]
            &&& left.files.contains_key(key) ==> left.files[key] == stored.files[key]
        }),
    decreases n,
{
    if n > 0 {
        lemma_left(stored, parts, n - 1, key);
        if parts[n - 1].id == key {
            assert(0 <= n - 1 < n && parts[n - 1].id == key);
        }
    }
}

/// The request lists ids of uploads that can be joined: all of their bytes have come, and they are
/// partial.
pub open spec fn can_be_joined(
    request: Request,
    addresses: Seq<Seq<char>>,
    ids: Seq<Seq<char>>,
    stored: Stored,
) -> bool {
    &&& field_text(request.fields(), "Upload-Concat"@) == Some(
        "final;"@ + joined(addresses, seq![' ']),
    )
    &&& ids.len() > 0
    &&& addresses.len() == ids.len()
    &&& forall|i: int|
        0 <= i < ids.len() ==> {
            &&& addressable(#[trigger] ids[i])
            &&& leads_to(addresses[i], ids[i])
            &&& stored.infos.contains_key(ids[i])
            &&& stored.infos[ids[i]].length == Some(stored.infos[ids[i]].offset)
            &&& stored.infos[ids[i]].is_partial
        }
}

/// What is stored under a key is gone where it is one of the parts and these are removed, and
/// otherwise stays as it was.
pub open spec fn is_left(
    conf: RustusConf,
    ids: Seq<Seq<char>>,
    stored: Stored,
    after: Stored,
    key: Seq<char>,
) -> bool {
    let gone = conf.remove_parts && ids.contains(key);
    &&& after.infos.contains_key(key) <==> stored.infos.contains_key(key) && !gone
    &&& after.files.contains_key(key) <==> stored.files.contains_key(key) && !gone
    &&& after.infos.contains_key(key) ==> after.infos[key] == stored.infos[key]
    &&& after.files.contains_key(key) ==> after.files[key] == stored.files[key]
}

/// A final upload has the bytes of all uploads whose addresses the request lists, in that order, and
/// is as long as they are together. The parts go, where the server is told to remove them, and all
/// others stay.
pub proof fn law_final_uploads(
    conf: RustusConf,
    request: Request,
    id: Seq<char>,
    storage: Seq<char>,
    now: i64,
    around: Around,
    stored: Stored,
    turns: nat,
    addresses: Seq<Seq<char>>,
    ids: Seq<Seq<char>>,
)
    requires
        sound(stored),
        fresh(stored, id),
        conf.tus_extensions@.contains(Extensions::Concatenation),
        reason(conf, request) is None,
        is_welcome(conf, around),
        can_be_joined(request, addresses, ids, stored),
        bytes_of_all(stored, ids).len() <= usize::MAX,
        conf.remove_parts ==> ids.no_duplicates() && ids.len() <= usize::MAX,
        turns >= 3 * ids.len() + 5,
    ensures
        ({
            let (after, answer) = creation(
                conf,
                request,
                id,
                storage,
                now,
                around,
                stored,
                turns,
            );
            let bytes = bytes_of_all(stored, ids);
            let upload = after.infos[id];
            &&& after.infos.contains_key(id)
            &&& after.files.contains_key(id)
            &&& after.files[id] == bytes
            &&& upload.id == id
            &&& upload.offset == bytes.len()
            &&& upload.length == Some(upload.offset)
            &&& upload.is_final
            &&& !upload.is_partial
            &&& !upload.deferred_size
            &&& upload.parts == Some(ids)
            &&& upload.path == Some(around.path)
            &&& upload.created_at == now
            &&& upload.storage == storage
            &&& upload.metadata == metadata_told(request)
            &&& answers_creation(conf, upload, answer)
            &&& forall|key: Seq<char>|
                key != id ==> #[trigger] is_left(conf, ids, stored, after, key)
        }),
{
    reveal_strlit("final;");
    reveal_strlit("partial");
    let text = "final;"@ + joined(addresses, seq![' ']);
    assert("final;"@ =~= text.take("final;"@.len() as int));
    assert(text[0] == "final;"@[0]);
    law_listed_ids(addresses, ids);
    assert(listed(request) == ids);
    let parts = records(stored, ids);
    assert forall|i: int| 0 <= i < parts.len() implies (#[trigger] parts[i]).complete()
        && parts[i].is_partial by {
        assert(addressable(ids[i]));
    }
    assert forall|i: int| 0 <= i < ids.len() implies stored.infos.contains_key(#[trigger] ids[i]) by {
        assert(addressable(ids[i]));
    }
    lemma_bytes_of_all(stored, ids);
    law_final_creation(conf, request, id, storage, now, around, stored, turns);
    let (after, answer) = creation(conf, request, id, storage, now, around, stored, turns);
    lemma_answers_creation(conf, after.infos[id]);
    assert forall|key: Seq<char>| key != id implies #[trigger] is_left(
        conf,
        ids,
        stored,
        after,
        key,
    ) by {
        let n = parts.len() as int;
        lemma_left(stored, parts, n, key);
        assert(ids.contains(key) <==> exists|i: int| 0 <= i < n && (#[trigger] parts[i]).id == key)
            by {
            if ids.contains(key) {
                let i = choose|i: int| 0 <= i < ids.len() && ids[i] == key;
                assert(stored.infos.contains_key(ids[i]));
                assert(parts[i].id == key);
            }
            if exists|i: int| 0 <= i < n && (#[trigger] parts[i]).id == key {
                let i = choose|i: int| 0 <= i < n && (#[trigger] parts[i]).id == key;
                assert(stored.infos.contains_key(ids[i]));
                assert(ids[i] == key);
            }
        }
    }
}

/// What holds from where there is room for an upload: its id stays, and what is about to be answered
/// is saved.
spec fn goes_on(state: CreateModel, event: EventModel, stored: Stored, id: Seq<char>) -> bool {
    match state {
        CreateModel::Gathering { info, .. } => info.id == id,
        CreateModel::Joining { info, .. } => info.id == id,
        CreateModel::DroppingFile { info, .. } => info.id == id,
        CreateModel::DroppingInfo { info, .. } => info.id == id,
        CreateModel::Appending => event matches EventModel::Appended { info } ==> info.id == id,
        CreateModel::Saving { info } => info.id == id && stored.infos[id] == info
            && stored.infos.contains_key(id),
        CreateModel::Finished => true,
        _ => false,
    }
}

/// From where there is room for an upload, nobody hears of it until it is saved, and then what is
/// told is what was saved.
proof fn lemma_heard_to_the_end(
    conf: RustusConf,
    request: Request,
    id: Seq<char>,
    storage: Seq<char>,
    now: i64,
    around: Around,
    stored: Stored,
    state: CreateModel,
    event: EventModel,
    turns: nat,
)
    requires
        goes_on(state, event, stored, id),
    ensures
        ({
            let handler = creating(conf, request, id, storage, now);
            let (after, answer) = run(handler, around, stored, state, event, turns);
            let said = heard(handler, around, stored, state, event, turns);
            answer.ends() ==> if answer matches ActionModel::Respond { reply } && reply.status == 201 {
                said == told_when_saved(conf, request, after.infos[id])
            } else {
                said == Seq::<EffectModel>::empty()
            }
        }),
    decreases turns,
{
    let handler = creating(conf, request, id, storage, now);
    let taken = handler(state, event);
    let none = Seq::<EffectModel>::empty();
    let said = heard(handler, around, stored, state, event, turns);
    assert(!(taken.action is SendHook));
    if taken.action.ends() || turns == 0 {
        assert(said =~= taken.effects);
    } else {
        let (more, next) = perform(around, stored, taken.action);
        assert(taken.effects =~= none);
        assert(goes_on(taken.state, next, more, id));
        lemma_heard_to_the_end(
            conf,
            request,
            id,
            storage,
            now,
            around,
            more,
            taken.state,
            next,
            (turns - 1) as nat,
        );
        let rest = heard(handler, around, more, taken.state, next, (turns - 1) as nat);
        assert(said =~= none + none + rest);
        assert(none + none + rest =~= rest);
    }
}

/// Who hears of a final upload: the listeners that are asked, those who count, and, as it is
/// finished, those who are told of finished uploads.
pub proof fn law_final_uploads_are_heard_of(
    conf: RustusConf,
    request: Request,
    id: Seq<char>,
    storage: Seq<char>,
    now: i64,
    around: Around,
    stored: Stored,
    turns: nat,
    addresses: Seq<Seq<char>>,
    ids: Seq<Seq<char>>,
)
    requires
        sound(stored),
        fresh(stored, id),
        conf.tus_extensions@.contains(Extensions::Concatenation),
        reason(conf, request) is None,
        is_welcome(conf, around),
        can_be_joined(request, addresses, ids, stored),
        bytes_of_all(stored, ids).len() <= usize::MAX,
        conf.remove_parts ==> ids.no_duplicates() && ids.len() <= usize::MAX,
        turns >= 3 * ids.len() + 5,
    ensures
        ({
            let (after, _) = creation(conf, request, id, storage, now, around, stored, turns);
            let last = after.infos[id];
            let length = match number_told(request.fields(), "Upload-Length"@) {
                Some(n) => Some(n as usize),
                None => None,
            };
            let first = Upload { path: None, offset: 0, length, ..last };
            let asked = if conf.hooks@.contains(Hook::PreCreate) {
                seq![
                    EffectModel::Notify {
                        hook: Hook::PreCreate,
                        request: request.told(conf),
                        info: first,
                    },
                ]
            } else {
                seq![]
            };
            let told = if conf.hooks@.contains(Hook::PostFinish) {
                seq![
                    EffectModel::Notify {
                        hook: Hook::PostFinish,
                        request: request.told(conf),
                        info: last,
                    },
                ]
            } else {
                seq![]
            };
            heard_of_creation(conf, request, id, storage, now, around, stored, turns) == asked
                + counted_at_creation(first) + told
        }),
{
    reveal_strlit("final;");
    let text = "final;"@ + joined(addresses, seq![' ']);
    assert("final;"@ =~= text.take("final;"@.len() as int));
    law_listed_ids(addresses, ids);
    law_final_uploads(
        conf,
        request,
        id,
        storage,
        now,
        around,
        stored,
        turns,
        addresses,
        ids,
    );
    let handler = creating(conf, request, id, storage, now);
    let (after, answer) = creation(conf, request, id, storage, now, around, stored, turns);
    let last = after.infos[id];
    let info = planned(conf, request.fields(), id, storage, now);
    let asks = conf.hooks@.contains(Hook::PreCreate);
    let left: nat = if asks {
        (turns - 2) as nat
    } else {
        (turns - 1) as nat
    };
    let room = Stored { files: stored.files.insert(id, seq![]), ..stored };
    let event = EventModel::Created { info, path: around.path };
    let rest = heard(handler, around, room, CreateModel::Creating, event, left);
    let none = Seq::<EffectModel>::empty();
    let asked = if asks {
        seq![
            EffectModel::Notify { hook: Hook::PreCreate, request: request.told(conf), info },
        ]
    } else {
        seq![]
    };
    assert(heard_of_creation(conf, request, id, storage, now, around, stored, turns) =~= asked
        + rest) by {
        reveal_with_fuel(heard, 3);
        assert(none + asked =~= asked);
        assert(none + none + rest =~= rest);
    }
    assert(run(handler, around, room, CreateModel::Creating, event, left) == (after, answer)) by {
        reveal_with_fuel(run, 3);
    }
    let taken = handler(CreateModel::Creating, event);
    let (more, next) = perform(around, room, taken.action);
    assert(goes_on(taken.state, next, more, id));
    lemma_heard_to_the_end(
        conf,
        request,
        id,
        storage,
        now,
        around,
        more,
        taken.state,
        next,
        (left - 1) as nat,
    );
    let end = heard(handler, around, more, taken.state, next, (left - 1) as nat);
    assert(taken.effects =~= counted_at_creation(info));
    assert(rest == taken.effects + none + end);
    assert(taken.effects + none + end =~= counted_at_creation(info) + end);
    let length = match number_told(request.fields(), "Upload-Length"@) {
        Some(n) => Some(n as usize),
        None => None,
    };
    assert(info =~= Upload { path: None, offset: 0, length, ..last });
    assert(asked + (counted_at_creation(info) + end) =~= asked + counted_at_creation(info) + end);
}

} // verus!
