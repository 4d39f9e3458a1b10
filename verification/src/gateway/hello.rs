//! How a client hello is written, and that the name written into one is the
//! name read from it.
use vstd::prelude::*;
use vstd::utf8::{encode_utf8, valid_utf8};
use crate::gateway::sni::{
    be16, extensions_at, extensions_of, handshake_of, hello_of, host_name, name_extension,
    name_of_extension, sni_of, text_of_name,
};
use crate::text::lower;

verus! {

/// A number in two bytes, the high one first.
pub open spec fn be16_bytes(n: nat) -> Seq<u8> {
    seq![(n / 256) as u8, (n % 256) as u8]
}

/// An extension of a client hello.
pub struct TlsExtension {
    pub kind: u16,
    pub data: Seq<u8>,
}

/// An extension in bytes: its kind, the length of its data, and the data.
pub open spec fn extension_bytes(kind: u16, data: Seq<u8>) -> Seq<u8> {
    be16_bytes(kind as nat) + be16_bytes(data.len()) + data
}

/// Extensions one behind the other.
pub open spec fn extensions_bytes(row: Seq<TlsExtension>) -> Seq<u8>
    decreases row.len(),
{
    if row.len() == 0 {
        Seq::empty()
    } else {
        extension_bytes(row[0].kind, row[0].data) + extensions_bytes(row.skip(1))
    }
}

/// Whether none of some extensions is the one of server names, and the data of
/// each is short enough for its length to be written.
pub open spec fn no_server_name(row: Seq<TlsExtension>) -> bool {
    forall|i: int|
        0 <= i < row.len() ==> (#[trigger] row[i]).kind != 0 && row[i].data.len() <= 0xffff
}

/// An entry of a list of server names.
pub struct TlsName {
    pub kind: u8,
    pub name: Seq<u8>,
}

/// An entry of a list of server names in bytes.
pub open spec fn name_bytes(kind: u8, name: Seq<u8>) -> Seq<u8> {
    seq![kind] + be16_bytes(name.len()) + name
}

/// Entries of a list of server names one behind the other.
pub open spec fn names_bytes(row: Seq<TlsName>) -> Seq<u8>
    decreases row.len(),
{
    if row.len() == 0 {
        Seq::empty()
    } else {
        name_bytes(row[0].kind, row[0].name) + names_bytes(row.skip(1))
    }
}

/// Whether none of some entries is a host name, and each is short enough for
/// its length to be written.
pub open spec fn no_host_name(row: Seq<TlsName>) -> bool {
    forall|i: int|
        0 <= i < row.len() ==> (#[trigger] row[i]).kind != 0 && row[i].name.len() <= 0xffff
}

proof fn lemma_be16(n: nat, before: Seq<u8>, after: Seq<u8>)
    requires
        n <= 0xffff,
    ensures
        be16(before + be16_bytes(n) + after, before.len() as int) == n,
{
    let whole = before + be16_bytes(n) + after;
    assert(whole[before.len() as int] == (n / 256) as u8);
    assert(whole[before.len() as int + 1] == (n % 256) as u8);
}

proof fn lemma_be16_back(b: Seq<u8>, i: int)
    requires
        0 <= i,
        i + 2 <= b.len(),
    ensures
        0 <= be16(b, i) <= 0xffff,
        b.subrange(i, i + 2) == be16_bytes(be16(b, i) as nat),
{
    assert(b.subrange(i, i + 2) =~= be16_bytes(be16(b, i) as nat));
}

proof fn lemma_extension_shift(front: Seq<u8>, exts: Seq<u8>, pos: int)
    requires
        0 <= pos,
    ensures
        name_extension(front + exts, front.len() + pos) == name_extension(exts, pos),
    decreases exts.len() - pos,
{
    let whole = front + exts;
    let at = front.len() + pos;
    if pos + 4 <= exts.len() {
        assert(be16(whole, at + 2) == be16(exts, pos + 2));
        assert(be16(whole, at) == be16(exts, pos));
        let len = be16(exts, pos + 2);
        if pos + 4 + len <= exts.len() {
            assert(whole.subrange(at + 4, at + 4 + len) =~= exts.subrange(
                pos + 4,
                pos + 4 + len,
            ));
            lemma_extension_shift(front, exts, pos + 4 + len);
        }
    }
}

proof fn lemma_extension_fields(kind: u16, data: Seq<u8>, rest: Seq<u8>)
    requires
        data.len() <= 0xffff,
    ensures
        ({
            let whole = extension_bytes(kind, data) + rest;
            &&& whole.len() >= 4 + data.len()
            &&& be16(whole, 0) == kind
            &&& be16(whole, 2) == data.len()
            &&& whole.subrange(4, 4 + data.len() as int) == data
            &&& extension_bytes(kind, data).len() == 4 + data.len()
        }),
{
    let whole = extension_bytes(kind, data) + rest;
    lemma_be16(kind as nat, Seq::empty(), be16_bytes(data.len()) + data + rest);
    assert(whole =~= Seq::<u8>::empty() + be16_bytes(kind as nat) + (be16_bytes(data.len()) + data
        + rest));
    lemma_be16(data.len(), be16_bytes(kind as nat), data + rest);
    assert(whole =~= be16_bytes(kind as nat) + be16_bytes(data.len()) + (data + rest));
    assert(whole.subrange(4, 4 + data.len() as int) =~= data);
}

/// The data of the extension of server names is found wherever it stands
/// behind extensions of other kinds, and whatever follows it.
pub proof fn law_server_name_is_found(front: Seq<TlsExtension>, data: Seq<u8>, rest: Seq<u8>)
    requires
        no_server_name(front),
        data.len() <= 0xffff,
    ensures
        name_extension(extensions_bytes(front) + extension_bytes(0, data) + rest, 0) == Some(data),
    decreases front.len(),
{
    let whole = extensions_bytes(front) + extension_bytes(0, data) + rest;
    if front.len() == 0 {
        assert(whole =~= extension_bytes(0, data) + rest);
        lemma_extension_fields(0, data, rest);
    } else {
        let first = front[0];
        let others = front.skip(1);
        assert forall|i: int| 0 <= i < others.len() implies (#[trigger] others[i]).kind != 0
            && others[i].data.len() <= 0xffff by {
            assert(others[i] == front[i + 1]);
        }
        law_server_name_is_found(others, data, rest);
        let tail = extensions_bytes(others) + extension_bytes(0, data) + rest;
        let head = extension_bytes(first.kind, first.data);
        assert(whole =~= head + tail);
        lemma_extension_fields(first.kind, first.data, tail);
        lemma_extension_shift(head, tail, 0);
    }
}

/// Extensions without one of server names hold no name, and neither do the few
/// bytes or the broken-off extension that may follow them.
pub proof fn law_other_extensions_hold_no_name(front: Seq<TlsExtension>, rest: Seq<u8>)
    requires
        no_server_name(front),
        rest.len() < 4 || rest.len() < 4 + be16(rest, 2),
    ensures
        name_extension(extensions_bytes(front) + rest, 0) is None,
    decreases front.len(),
{
    let whole = extensions_bytes(front) + rest;
    if front.len() == 0 {
        assert(whole =~= rest);
    } else {
        let first = front[0];
        let others = front.skip(1);
        assert forall|i: int| 0 <= i < others.len() implies (#[trigger] others[i]).kind != 0
            && others[i].data.len() <= 0xffff by {
            assert(others[i] == front[i + 1]);
        }
        law_other_extensions_hold_no_name(others, rest);
        let tail = extensions_bytes(others) + rest;
        let head = extension_bytes(first.kind, first.data);
        assert(whole =~= head + tail);
        lemma_extension_fields(first.kind, first.data, tail);
        lemma_extension_shift(head, tail, 0);
    }
}

/// Whether bytes are extensions of other kinds, then one of server names with
/// the given data, then anything.
pub open spec fn row_with_name(
    exts: Seq<u8>,
    front: Seq<TlsExtension>,
    data: Seq<u8>,
    rest: Seq<u8>,
) -> bool {
    &&& no_server_name(front)
    &&& exts == extensions_bytes(front) + extension_bytes(0, data) + rest
}

proof fn lemma_row_is_split(exts: Seq<u8>, data: Seq<u8>) -> (r: (Seq<TlsExtension>, Seq<u8>))
    requires
        name_extension(exts, 0) == Some(data),
    ensures
        row_with_name(exts, r.0, data, r.1),
    decreases exts.len(),
{
    let kind = be16(exts, 0);
    let len = be16(exts, 2);
    lemma_be16_back(exts, 0);
    lemma_be16_back(exts, 2);
    let own = exts.subrange(4, 4 + len);
    let rest = exts.skip(4 + len);
    let head = extension_bytes(kind as u16, own);
    assert(head =~= exts.take(4 + len)) by {
        assert(exts.take(4 + len) =~= exts.subrange(0, 2) + exts.subrange(2, 4) + own);
    }
    assert(exts =~= head + rest);
    if kind == 0 {
        assert(exts =~= extensions_bytes(Seq::empty()) + extension_bytes(0, data) + rest);
        (Seq::empty(), rest)
    } else {
        lemma_extension_shift(head, rest, 0);
        let (others, last) = lemma_row_is_split(rest, data);
        let first = TlsExtension { kind: kind as u16, data: own };
        let front = seq![first] + others;
        assert(front.skip(1) =~= others);
        assert(exts =~= extensions_bytes(front) + extension_bytes(0, data) + last);
        assert forall|i: int| 0 <= i < front.len() implies (#[trigger] front[i]).kind != 0
            && front[i].data.len() <= 0xffff by {
            if i > 0 {
                assert(front[i] == others[i - 1]);
            }
        }
        (front, last)
    }
}

/// The data that is found is that of an extension of server names with only
/// extensions of other kinds in front of it.
pub proof fn law_found_name_stands_in_row(exts: Seq<u8>, data: Seq<u8>)
    requires
        name_extension(exts, 0) == Some(data),
    ensures
        exists|front: Seq<TlsExtension>, rest: Seq<u8>|
            #[trigger] row_with_name(exts, front, data, rest),
{
    let (front, rest) = lemma_row_is_split(exts, data);
    assert(row_with_name(exts, front, data, rest));
}

proof fn lemma_name_shift(front: Seq<u8>, list: Seq<u8>, pos: int)
    requires
        0 <= pos,
    ensures
        host_name(front + list, front.len() + pos) == host_name(list, pos),
    decreases list.len() - pos,
{
    let whole = front + list;
    let at = front.len() + pos;
    if pos + 3 <= list.len() {
        assert(be16(whole, at + 1) == be16(list, pos + 1));
        assert(whole[at] == list[pos]);
        let len = be16(list, pos + 1);
        if pos + 3 + len <= list.len() {
            assert(whole.subrange(at + 3, at + 3 + len) =~= list.subrange(
                pos + 3,
                pos + 3 + len,
            ));
            lemma_name_shift(front, list, pos + 3 + len);
        }
    }
}

proof fn lemma_name_fields(kind: u8, name: Seq<u8>, rest: Seq<u8>)
    requires
        name.len() <= 0xffff,
    ensures
        ({
            let whole = name_bytes(kind, name) + rest;
            &&& whole.len() >= 3 + name.len()
            &&& whole[0] == kind
            &&& be16(whole, 1) == name.len()
            &&& whole.subrange(3, 3 + name.len() as int) == name
            &&& name_bytes(kind, name).len() == 3 + name.len()
        }),
{
    let whole = name_bytes(kind, name) + rest;
    lemma_be16(name.len(), seq![kind], name + rest);
    assert(whole =~= seq![kind] + be16_bytes(name.len()) + (name + rest));
    assert(whole.subrange(3, 3 + name.len() as int) =~= name);
}

/// The first host name in a list is found wherever it stands behind names of
/// other kinds, and whatever follows it.
pub proof fn law_host_name_is_found(front: Seq<TlsName>, name: Seq<u8>, rest: Seq<u8>)
    requires
        no_host_name(front),
        name.len() <= 0xffff,
    ensures
        host_name(names_bytes(front) + name_bytes(0, name) + rest, 0) == Some(name),
    decreases front.len(),
{
    let whole = names_bytes(front) + name_bytes(0, name) + rest;
    if front.len() == 0 {
        assert(whole =~= name_bytes(0, name) + rest);
        lemma_name_fields(0, name, rest);
    } else {
        let first = front[0];
        let others = front.skip(1);
        assert forall|i: int| 0 <= i < others.len() implies (#[trigger] others[i]).kind != 0
            && others[i].name.len() <= 0xffff by {
            assert(others[i] == front[i + 1]);
        }
        law_host_name_is_found(others, name, rest);
        let tail = names_bytes(others) + name_bytes(0, name) + rest;
        let head = name_bytes(first.kind, first.name);
        assert(whole =~= head + tail);
        lemma_name_fields(first.kind, first.name, tail);
        lemma_name_shift(head, tail, 0);
    }
}

/// What stands in a client hello besides its extensions.
pub struct HelloParts {
    /// The protocol version in front of the record.
    pub version: Seq<u8>,
    /// The version and the random bytes of the hello.
    pub head: Seq<u8>,
    pub session: Seq<u8>,
    pub suites: Seq<u8>,
    pub methods: Seq<u8>,
}

impl HelloParts {
    pub open spec fn fits(self) -> bool {
        &&& self.version.len() == 2
        &&& self.head.len() == 34
        &&& self.session.len() <= 0xff
        &&& self.suites.len() <= 0xffff
        &&& self.methods.len() <= 0xff
    }

    /// What stands in front of the extensions and their length.
    pub open spec fn front(self) -> Seq<u8> {
        self.head + seq![self.session.len() as u8] + self.session + be16_bytes(self.suites.len())
            + self.suites + seq![self.methods.len() as u8] + self.methods
    }

    /// The hello with its extensions.
    pub open spec fn hello(self, extensions: Seq<u8>) -> Seq<u8> {
        self.front() + be16_bytes(extensions.len()) + extensions
    }

    /// The handshake message that holds the hello.
    pub open spec fn handshake(self, extensions: Seq<u8>) -> Seq<u8> {
        let hello = self.hello(extensions);
        seq![0x01u8, (hello.len() / 65536) as u8, ((hello.len() / 256) % 256) as u8, (hello.len()
            % 256) as u8] + hello
    }

    /// The record that holds the handshake message.
    pub open spec fn record(self, extensions: Seq<u8>) -> Seq<u8> {
        seq![0x16u8] + self.version + be16_bytes(self.handshake(extensions).len())
            + self.handshake(extensions)
    }
}

proof fn lemma_front_fields(p: HelloParts, more: Seq<u8>)
    requires
        p.fits(),
    ensures
        ({
            let ch = p.front() + more;
            let suites = 35 + p.session.len();
            let methods = suites + 2 + p.suites.len();
            &&& ch[34] == p.session.len()
            &&& be16(ch, suites as int) == p.suites.len()
            &&& ch[methods as int] == p.methods.len()
            &&& p.front().len() == methods + 1 + p.methods.len()
        }),
{
    let ch = p.front() + more;
    let one = p.head + seq![p.session.len() as u8] + p.session;
    let two = p.suites + seq![p.methods.len() as u8] + p.methods + more;
    lemma_be16(p.suites.len(), one, two);
    assert(ch =~= one + be16_bytes(p.suites.len()) + two);
    let three = one + be16_bytes(p.suites.len()) + p.suites;
    assert(ch =~= three + seq![p.methods.len() as u8] + (p.methods + more));
}

proof fn lemma_record_is_read(version: Seq<u8>, hs: Seq<u8>, more: Seq<u8>)
    requires
        version.len() == 2,
        hs.len() <= 0xffff,
    ensures
        handshake_of(seq![0x16u8] + version + be16_bytes(hs.len()) + hs + more) == Some(hs),
{
    let buf = seq![0x16u8] + version + be16_bytes(hs.len()) + hs + more;
    lemma_be16(hs.len(), seq![0x16u8] + version, hs + more);
    assert(buf =~= seq![0x16u8] + version + be16_bytes(hs.len()) + (hs + more));
    assert(buf.subrange(5, 5 + hs.len() as int) =~= hs);
}

proof fn lemma_handshake_is_read(ch: Seq<u8>)
    requires
        ch.len() <= 0xffff,
    ensures
        ({
            let head = seq![
                0x01u8,
                (ch.len() / 65536) as u8,
                ((ch.len() / 256) % 256) as u8,
                (ch.len() % 256) as u8,
            ];
            hello_of(head + ch) == Some(ch)
        }),
{
    let head = seq![
        0x01u8,
        (ch.len() / 65536) as u8,
        ((ch.len() / 256) % 256) as u8,
        (ch.len() % 256) as u8,
    ];
    let hs = head + ch;
    assert(hs[0] == head[0] && hs[1] == head[1] && hs[2] == head[2] && hs[3] == head[3]);
    assert(hs.subrange(4, 4 + ch.len() as int) =~= ch);
}

proof fn lemma_extensions_are_read(p: HelloParts, extensions: Seq<u8>)
    requires
        p.fits(),
        extensions.len() <= 0xffff,
    ensures
        extensions_of(p.hello(extensions)) == Some(extensions),
{
    let ch = p.hello(extensions);
    let tail = be16_bytes(extensions.len()) + extensions;
    assert(ch =~= p.front() + tail);
    lemma_front_fields(p, tail);
    lemma_be16(extensions.len(), p.front(), extensions);
    let at = p.front().len() as int;
    assert(extensions_at(ch) == Some(at));
    assert(ch.subrange(at + 2, at + 2 + extensions.len()) =~= extensions);
}

proof fn lemma_whole_record_is_read(p: HelloParts, extensions: Seq<u8>, more: Seq<u8>)
    requires
        p.fits(),
        p.handshake(extensions).len() <= 0xffff,
    ensures
        handshake_of(p.record(extensions) + more) == Some(p.handshake(extensions)),
{
    lemma_record_is_read(p.version, p.handshake(extensions), more);
}

proof fn lemma_whole_handshake_is_read(p: HelloParts, extensions: Seq<u8>)
    requires
        p.handshake(extensions).len() <= 0xffff,
    ensures
        hello_of(p.handshake(extensions)) == Some(p.hello(extensions)),
{
    lemma_hello_length(p, extensions);
    lemma_handshake_is_read(p.hello(extensions));
}

proof fn lemma_hello_is_read(p: HelloParts, extensions: Seq<u8>, more: Seq<u8>)
    requires
        p.fits(),
        p.handshake(extensions).len() <= 0xffff,
    ensures
        sni_of(p.record(extensions) + more) == (match name_extension(extensions, 0) {
            None => None,
            Some(data) => text_of_name(name_of_extension(data)),
        }),
{
    lemma_hello_length(p, extensions);
    lemma_whole_record_is_read(p, extensions, more);
    lemma_whole_handshake_is_read(p, extensions);
    lemma_extensions_are_read(p, extensions);
}

proof fn lemma_hello_length(p: HelloParts, extensions: Seq<u8>)
    ensures
        extensions.len() <= p.hello(extensions).len(),
        p.handshake(extensions).len() == 4 + p.hello(extensions).len(),
{
}

/// The data of an extension of server names: the list behind its length.
pub open spec fn name_list_bytes(list: Seq<u8>) -> Seq<u8> {
    be16_bytes(list.len()) + list
}

/// Extensions with one of server names among them, and in it a host name.
pub struct NamedExtensions {
    /// The extensions in front.
    pub front: Seq<TlsExtension>,
    /// The names in front of the host name.
    pub others: Seq<TlsName>,
    pub name: Seq<u8>,
    /// The bytes behind the host name in the list of names.
    pub more_names: Seq<u8>,
    /// The bytes behind the extension of server names.
    pub more: Seq<u8>,
}

impl NamedExtensions {
    pub open spec fn list(self) -> Seq<u8> {
        names_bytes(self.others) + name_bytes(0, self.name) + self.more_names
    }

    pub open spec fn bytes(self) -> Seq<u8> {
        extensions_bytes(self.front) + extension_bytes(0, name_list_bytes(self.list())) + self.more
    }
}

proof fn lemma_list_is_read(e: NamedExtensions)
    requires
        no_host_name(e.others),
        e.list().len() <= 0xffff,
    ensures
        name_of_extension(name_list_bytes(e.list())) == Some(e.name),
{
    let list = e.list();
    let data = name_list_bytes(list);
    lemma_be16(list.len(), Seq::empty(), list);
    assert(data =~= Seq::<u8>::empty() + be16_bytes(list.len()) + list);
    assert(data.subrange(2, 2 + list.len() as int) =~= list);
    assert(list.len() == names_bytes(e.others).len() + (3 + e.name.len())
        + e.more_names.len());
    law_host_name_is_found(e.others, e.name, e.more_names);
}

proof fn lemma_named_lengths(e: NamedExtensions)
    ensures
        e.bytes().len() >= 6 + e.list().len(),
{
}

/// A client hello that is written with a host name, behind any extensions and
/// names of other kinds and in front of anything, is read as naming that host
/// in lower case.
pub proof fn law_written_name_is_read(
    p: HelloParts,
    e: NamedExtensions,
    host: Seq<char>,
    more: Seq<u8>,
)
    requires
        p.fits(),
        no_server_name(e.front),
        no_host_name(e.others),
        e.name == encode_utf8(host),
        p.handshake(e.bytes()).len() <= 0xffff,
    ensures
        sni_of(p.record(e.bytes()) + more) == Some(lower(host)),
{
    lemma_name_is_read(p, e, more);
    vstd::utf8::encode_utf8_valid_utf8(host);
    vstd::utf8::encode_utf8_decode_utf8(host);
}

/// A host name that is not UTF-8 names nobody.
pub proof fn law_broken_name_is_no_name(p: HelloParts, e: NamedExtensions, more: Seq<u8>)
    requires
        p.fits(),
        no_server_name(e.front),
        no_host_name(e.others),
        !valid_utf8(e.name),
        p.handshake(e.bytes()).len() <= 0xffff,
    ensures
        sni_of(p.record(e.bytes()) + more) is None,
{
    lemma_name_is_read(p, e, more);
}

proof fn lemma_name_is_read(p: HelloParts, e: NamedExtensions, more: Seq<u8>)
    requires
        p.fits(),
        no_server_name(e.front),
        no_host_name(e.others),
        p.handshake(e.bytes()).len() <= 0xffff,
    ensures
        sni_of(p.record(e.bytes()) + more) == text_of_name(Some(e.name)),
{
    let data = name_list_bytes(e.list());
    lemma_hello_is_read(p, e.bytes(), more);
    lemma_hello_length(p, e.bytes());
    lemma_named_lengths(e);
    law_server_name_is_found(e.front, data, e.more);
    lemma_list_is_read(e);
}

/// A client hello that is written without an extension of server names names
/// nobody.
pub proof fn law_nameless_hello_has_no_name(
    p: HelloParts,
    row: Seq<TlsExtension>,
    more: Seq<u8>,
)
    requires
        p.fits(),
        no_server_name(row),
        p.handshake(extensions_bytes(row)).len() <= 0xffff,
    ensures
        sni_of(p.record(extensions_bytes(row)) + more) is None,
{
    let extensions = extensions_bytes(row);
    lemma_hello_is_read(p, extensions, more);
    law_other_extensions_hold_no_name(row, Seq::empty());
    assert(extensions + Seq::<u8>::empty() =~= extensions);
}

/// Only bytes that start with a whole record of a handshake, and in it a whole
/// client hello, name anybody.
pub proof fn law_only_hellos_have_names(buf: Seq<u8>)
    requires
        sni_of(buf) is Some,
    ensures
        buf.len() >= 9,
        buf[0] == 0x16,
        buf[5] == 0x01,
        buf.len() >= 5 + (buf[3] * 256 + buf[4]),
        4 + (buf[6] * 65536 + buf[7] * 256 + buf[8]) <= buf[3] * 256 + buf[4],
{
    let hs = handshake_of(buf)->0;
    assert(hs[0] == buf[5] && hs[1] == buf[6] && hs[2] == buf[7] && hs[3] == buf[8]);
}

} // verus!
