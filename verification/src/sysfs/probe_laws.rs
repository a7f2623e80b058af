//! What sysfs tells of a device, told by the contents of its files.
use super::attributes::{
    joined, lines, optional_text, optional_value, properties, trimmed, Contents,
};
use super::laws::{probe_run, text_of, value_of, Files};
use super::probe::{
    attribute_file, authorized_value, is_hub, other_device_type, probe_start, root_hub_name,
    Attribute,
};
use super::scanner::{
    entries_devices, scanned_devices, usb_devices_dir, Listing, Probed,
};
use super::{UsbDevice, UsbDeviceView};
use crate::error::{ErrorView, IoError, IoErrorKind};
use crate::order::{in_name_order, law_sorted_by_name, sorted_by_name};
use crate::text::{all_decimal, lower, split, split_once};
use crate::text_laws::{
    law_cut_apart_again, law_cut_at_the_first_separator, law_hexadecimal_texts,
    law_lower_case_forgets_case_only, law_pieces_behind_a_separator, law_pieces_make_the_text,
    same_letters,
};
use vstd::prelude::*;
use vstd::utf8::{decode_utf8, valid_utf8};

verus! {

// ---- Values ----------------------------------------------------------------------------------

/// A character that ends a value.
pub open spec fn ends_value(c: char) -> bool {
    c == '\u{0}' || c == '\n' || c == '\r' || c == '\t'
}

/// A value is the text up to its last character that does not end one: what was cut off behind it
/// are NULs, line ends and tabs, and nothing of them is left at its end.
pub proof fn law_values_are_cut_at_the_end(s: Seq<char>)
    ensures
        trimmed(s).len() <= s.len(),
        trimmed(s) == s.take(trimmed(s).len() as int),
        forall|i: int| trimmed(s).len() <= i < s.len() ==> ends_value(#[trigger] s[i]),
        trimmed(s).len() > 0 ==> !ends_value(trimmed(s).last()),
    decreases s.len(),
{
    if s.len() > 0 && ends_value(s.last()) {
        let less = s.drop_last();
        law_values_are_cut_at_the_end(less);
        assert(less.take(trimmed(less).len() as int) =~= s.take(trimmed(less).len() as int));
        assert forall|i: int| trimmed(s).len() <= i < s.len() implies ends_value(
            #[trigger] s[i],
        ) by {
            if i < less.len() {
                assert(less[i] == s[i]);
            }
        }
    } else {
        assert(s.take(s.len() as int) =~= s);
    }
}

/// An attribute that could be read has its text for a value, cut at the end; one that is absent
/// has none. Whatever else came of reading it is an error that names the file.
pub proof fn law_attribute_values(path: Seq<char>, contents: Contents)
    ensures
        contents matches Ok(bytes) ==> {
            &&& valid_utf8(bytes@) ==> optional_text(path, contents) == Ok::<
                Option<Seq<char>>,
                ErrorView,
            >(Some(decode_utf8(bytes@)))
            &&& !valid_utf8(bytes@) ==> optional_text(path, contents) is Err
            &&& valid_utf8(bytes@) ==> optional_value(path, contents) == Ok::<
                Option<Seq<char>>,
                ErrorView,
            >(Some(trimmed(decode_utf8(bytes@))))
            &&& !valid_utf8(bytes@) ==> (optional_value(path, contents) matches Err(
                ErrorView::Io { context, source },
            ) && context == "failed to read "@ + path)
        },
        contents matches Err(error) ==> {
            &&& error.kind == IoErrorKind::NotFound ==> optional_text(path, contents) == Ok::<
                Option<Seq<char>>,
                ErrorView,
            >(None)
            &&& error.kind != IoErrorKind::NotFound ==> optional_text(path, contents) is Err
            &&& error.kind == IoErrorKind::NotFound ==> optional_value(path, contents) == Ok::<
                Option<Seq<char>>,
                ErrorView,
            >(None)
            &&& error.kind != IoErrorKind::NotFound ==> optional_value(path, contents) == Err::<
                Option<Seq<char>>,
                ErrorView,
            >(ErrorView::Io { context: "failed to read "@ + path, source: error@ })
        },
{
}

/// The files that a device is read from.
pub proof fn law_attribute_files(path: Seq<char>)
    requires
        path.len() > 0,
        path.last() != '/',
    ensures
        joined(path, attribute_file(Attribute::Uevent)) == path + "/uevent"@,
        joined(path, attribute_file(Attribute::VendorId)) == path + "/idVendor"@,
        joined(path, attribute_file(Attribute::ProductId)) == path + "/idProduct"@,
        joined(path, attribute_file(Attribute::Descriptors)) == path + "/descriptors"@,
        joined(path, attribute_file(Attribute::DeviceClass)) == path + "/bDeviceClass"@,
        joined(path, attribute_file(Attribute::ProductName)) == path + "/product"@,
        joined(path, attribute_file(Attribute::Serial)) == path + "/serial"@,
        joined(path, attribute_file(Attribute::ConnectType)) == path + "/port/connect_type"@,
        joined(path, attribute_file(Attribute::Authorized)) == path + "/authorized"@,
{
    reveal_strlit("uevent");
    reveal_strlit("/uevent");
    reveal_strlit("idVendor");
    reveal_strlit("/idVendor");
    reveal_strlit("idProduct");
    reveal_strlit("/idProduct");
    reveal_strlit("descriptors");
    reveal_strlit("/descriptors");
    reveal_strlit("bDeviceClass");
    reveal_strlit("/bDeviceClass");
    reveal_strlit("product");
    reveal_strlit("/product");
    reveal_strlit("serial");
    reveal_strlit("/serial");
    reveal_strlit("port/connect_type");
    reveal_strlit("/port/connect_type");
    reveal_strlit("authorized");
    reveal_strlit("/authorized");
    assert(path.push('/') + "uevent"@ =~= path + "/uevent"@);
    assert(path.push('/') + "idVendor"@ =~= path + "/idVendor"@);
    assert(path.push('/') + "idProduct"@ =~= path + "/idProduct"@);
    assert(path.push('/') + "descriptors"@ =~= path + "/descriptors"@);
    assert(path.push('/') + "bDeviceClass"@ =~= path + "/bDeviceClass"@);
    assert(path.push('/') + "product"@ =~= path + "/product"@);
    assert(path.push('/') + "serial"@ =~= path + "/serial"@);
    assert(path.push('/') + "port/connect_type"@ =~= path + "/port/connect_type"@);
    assert(path.push('/') + "authorized"@ =~= path + "/authorized"@);
}

/// What the `authorized` file says: a one that the device may be used, a zero that it may not, and
/// nothing else says either.
pub proof fn law_authorized_values(value: Option<Seq<char>>)
    ensures
        authorized_value(value) == Some(true) <==> value == Some(seq!['1']),
        authorized_value(value) == Some(false) <==> value == Some(seq!['0']),
{
    reveal_strlit("0");
    reveal_strlit("1");
    assert("0"@ =~= seq!['0']);
    assert("1"@ =~= seq!['1']);
    assert(seq!['0'][0] != seq!['1'][0]);
}

// ---- What an entry is ------------------------------------------------------------------------

/// Root hubs are named `usb` and a number of at least one digit, and nothing else is.
pub proof fn law_root_hub_names(name: Seq<char>)
    ensures
        root_hub_name(name) <==> name.len() >= 4 && name.take(3) == "usb"@ && forall|i: int|
            3 <= i < name.len() ==> "0123456789"@.contains(#[trigger] name[i]),
{
    reveal_strlit("usb");
    let rest = name.skip(3);
    law_hexadecimal_texts(rest);
    if name.len() >= 4 {
        assert(name.take(3)[0] == name[0] && name.take(3)[1] == name[1] && name.take(3)[2]
            == name[2]);
        if name[0] == 'u' && name[1] == 's' && name[2] == 'b' {
            assert(name.take(3) =~= "usb"@);
        }
        if all_decimal(rest) {
            assert forall|i: int| 3 <= i < name.len() implies "0123456789"@.contains(
                #[trigger] name[i],
            ) by {
                assert(rest[i - 3] == name[i]);
            }
        }
        if forall|i: int| 3 <= i < name.len() ==> "0123456789"@.contains(#[trigger] name[i]) {
            assert forall|i: int| 0 <= i < rest.len() implies "0123456789"@.contains(
                #[trigger] rest[i],
            ) by {
                assert(rest[i] == name[i + 3]);
            }
        }
    }
}

proof fn lemma_nine(class: Seq<char>)
    ensures
        lower(class) == "09"@ <==> class == seq!['0', '9'],
{
    reveal_strlit("09");
    let nine = seq!['0', '9'];
    assert("09"@ =~= nine);
    assert(lower(nine) =~= nine);
    law_lower_case_forgets_case_only(class, nine);
    if same_letters(class, nine) {
        assert(crate::text_laws::same_letter(class[0], nine[0]));
        assert(crate::text_laws::same_letter(class[1], nine[1]));
        assert(class =~= nine);
    }
}

/// A device is a hub exactly where its class is `09`, or where one of its interfaces begins with
/// that class.
pub proof fn law_hubs(class: Option<Seq<char>>, interfaces: Seq<Seq<char>>)
    ensures
        is_hub(class, interfaces) <==> {
            ||| class == Some(seq!['0', '9'])
            ||| exists|i: int|
                0 <= i < interfaces.len() && (#[trigger] interfaces[i]).len() >= 3
                    && interfaces[i][0] == '0' && interfaces[i][1] == '9' && interfaces[i][2] == ':'
        },
{
    if class is Some {
        lemma_nine(class->0);
    }
    assert forall|i: int| 0 <= i < interfaces.len() implies super::probe::hub_interface(
        #[trigger] interfaces[i],
    ) == (interfaces[i].len() >= 3 && interfaces[i][0] == '0' && interfaces[i][1] == '9'
        && interfaces[i][2] == ':') by {
        let t = interfaces[i];
        law_cut_at_the_first_separator(t, ':');
        if let Some(parts) = split_once(t, ':') {
            lemma_nine(parts.0);
            assert(parts.0.push(':') + parts.1 == t);
            if parts.0 == seq!['0', '9'] {
                assert(t[0] == parts.0[0] && t[1] == parts.0[1] && t[2] == ':');
            }
        }
        if t.len() >= 3 && t[0] == '0' && t[1] == '9' && t[2] == ':' {
            let nine = seq!['0', '9'];
            assert(!nine.contains(':'));
            assert(nine.push(':') + t.skip(3) =~= t);
            law_cut_apart_again(nine, ':', t.skip(3));
            lemma_nine(nine);
        }
    }
}

// ---- Properties ------------------------------------------------------------------------------

/// A line sets a key to a value.
pub open spec fn sets(line: Seq<char>, key: Seq<char>, value: Seq<char>) -> bool {
    !key.contains('=') && line == key + seq!['='] + value
}

/// Lines of the form `key=value`, with the key up to the first `=`, are properties. A key has a
/// value exactly where some line sets it, and then that of the last line that does.
pub proof fn law_properties(lines: Seq<Seq<char>>, key: Seq<char>, value: Seq<char>)
    requires
        !key.contains('='),
    ensures
        properties(lines).contains_key(key) && properties(lines)[key] == value <==> exists|i: int|
            0 <= i < lines.len() && sets(#[trigger] lines[i], key, value) && forall|j: int, other: Seq<char>|
                #![trigger sets(lines[j], key, other)]
                i < j < lines.len() ==> !sets(lines[j], key, other),
        !properties(lines).contains_key(key) <==> forall|i: int, other: Seq<char>|
            #![trigger sets(lines[i], key, other)]
            0 <= i < lines.len() ==> !sets(lines[i], key, other),
    decreases lines.len(),
{
    if lines.len() > 0 {
        let rest = lines.drop_last();
        let last = lines.last();
        let n = lines.len() - 1;
        law_properties(rest, key, value);
        law_cut_at_the_first_separator(last, '=');
        assert(lines[n] == last);
        assert forall|other: Seq<char>| #[trigger] sets(last, key, other) <==> split_once(last, '=')
            == Some((key, other)) by {
            if sets(last, key, other) {
                assert(last =~= key.push('=') + other);
                law_cut_apart_again(key, '=', other);
            }
            if split_once(last, '=') == Some((key, other)) {
                assert(key.push('=') + other =~= key + seq!['='] + other);
            }
        }
        assert forall|i: int, other: Seq<char>| 0 <= i < n implies #[trigger] sets(
            lines[i],
            key,
            other,
        ) == sets(rest[i], key, other) by {
            assert(lines[i] == rest[i]);
        }
        let cut = split_once(last, '=');
        let now = cut is Some && (cut->0).0 == key;
        if now {
            let held = (cut->0).1;
            assert(sets(lines[n], key, held));
            assert(properties(lines)[key] == held);
            if held == value {
                assert(sets(lines[n], key, value));
            }
            if exists|i: int|
                0 <= i < lines.len() && sets(#[trigger] lines[i], key, value) && forall|j: int, other: Seq<char>|
                    #![trigger sets(lines[j], key, other)]
                    i < j < lines.len() ==> !sets(lines[j], key, other) {
                let i = choose|i: int|
                    0 <= i < lines.len() && sets(#[trigger] lines[i], key, value) && forall|j: int, other: Seq<char>|
                        #![trigger sets(lines[j], key, other)]
                        i < j < lines.len() ==> !sets(lines[j], key, other);
                if i < n {
                    assert(!sets(lines[n], key, held));
                }
                assert(sets(last, key, value));
            }
        } else {
            assert(properties(lines).contains_key(key) == properties(rest).contains_key(key));
            if exists|i: int|
                0 <= i < rest.len() && sets(#[trigger] rest[i], key, value) && forall|j: int, other: Seq<char>|
                    #![trigger sets(rest[j], key, other)]
                    i < j < rest.len() ==> !sets(rest[j], key, other) {
                let i = choose|i: int|
                    0 <= i < rest.len() && sets(#[trigger] rest[i], key, value) && forall|j: int, other: Seq<char>|
                        #![trigger sets(rest[j], key, other)]
                        i < j < rest.len() ==> !sets(rest[j], key, other);
                assert(sets(lines[i], key, value));
                assert forall|j: int, other: Seq<char>|
                    #![trigger sets(lines[j], key, other)]
                    i < j < lines.len() implies !sets(lines[j], key, other) by {
                    if j < n {
                        assert(!sets(rest[j], key, other));
                    }
                }
            }
            if exists|i: int|
                0 <= i < lines.len() && sets(#[trigger] lines[i], key, value) && forall|j: int, other: Seq<char>|
                    #![trigger sets(lines[j], key, other)]
                    i < j < lines.len() ==> !sets(lines[j], key, other) {
                let i = choose|i: int|
                    0 <= i < lines.len() && sets(#[trigger] lines[i], key, value) && forall|j: int, other: Seq<char>|
                        #![trigger sets(lines[j], key, other)]
                        i < j < lines.len() ==> !sets(lines[j], key, other);
                assert(i < n);
                assert(sets(rest[i], key, value));
                assert forall|j: int, other: Seq<char>|
                    #![trigger sets(rest[j], key, other)]
                    i < j < rest.len() implies !sets(rest[j], key, other) by {
                    assert(!sets(lines[j], key, other));
                }
            }
            if forall|i: int, other: Seq<char>|
                #![trigger sets(rest[i], key, other)]
                0 <= i < rest.len() ==> !sets(rest[i], key, other) {
                assert forall|i: int, other: Seq<char>|
                    #![trigger sets(lines[i], key, other)]
                    0 <= i < lines.len() implies !sets(lines[i], key, other) by {
                    if i < n {
                        assert(!sets(rest[i], key, other));
                    }
                }
            }
            if forall|i: int, other: Seq<char>|
                #![trigger sets(lines[i], key, other)]
                0 <= i < lines.len() ==> !sets(lines[i], key, other) {
                assert forall|i: int, other: Seq<char>|
                    #![trigger sets(rest[i], key, other)]
                    0 <= i < rest.len() implies !sets(rest[i], key, other) by {
                    assert(!sets(lines[i], key, other));
                }
            }
        }
    }
}

/// The lines of a text are cut at line feeds; a carriage return ahead of one belongs to it. What
/// stands behind the last one is a line where it is not empty.
pub proof fn law_lines(line: Seq<char>, rest: Seq<char>)
    requires
        !line.contains('\n'),
    ensures
        line.len() == 0 || line.last() != '\r' ==> lines(line.push('\n') + rest) == seq![line]
            + lines(rest),
        line.len() > 0 && line.last() == '\r' ==> lines(line.push('\n') + rest) == seq![
            line.drop_last(),
        ] + lines(rest),
        line.len() > 0 ==> lines(line) == seq![line],
        lines(Seq::empty()) == Seq::<Seq<char>>::empty(),
{
    law_pieces_behind_a_separator(line, '\n', rest);
    law_pieces_behind_a_separator(Seq::<char>::empty(), '\n', Seq::empty());
    law_pieces_make_the_text(rest, '\n');
    let tail = split(rest, '\n');
    let all = seq![line] + tail;
    let f = |line: Seq<char>| super::attributes::without_return(line);
    assert(all.last() == tail.last());
    assert(all.drop_last() =~= seq![line] + tail.drop_last());
    assert(all.drop_last().map_values(f) =~= seq![f(line)] + tail.drop_last().map_values(f));
    assert(lines(line.push('\n') + rest) =~= seq![super::attributes::without_return(line)] + lines(
        rest,
    ));
    if line.len() > 0 {
        assert(seq![line].drop_last() =~= Seq::<Seq<char>>::empty());
        assert(lines(line) =~= seq![line]);
    }
    assert(lines(Seq::empty()) =~= Seq::<Seq<char>>::empty());
}

/// An entry is taken for something else than a device exactly where the last line of its `uevent`
/// that begins with `DEVTYPE=` names another type than `usb_device`.
pub proof fn law_other_device_types(uevent: Seq<char>)
    ensures
        other_device_type(uevent) <==> exists|i: int, value: Seq<char>|
            #![trigger sets(lines(uevent)[i], "DEVTYPE"@, value)]
            0 <= i < lines(uevent).len() && sets(lines(uevent)[i], "DEVTYPE"@, value) && value
                != "usb_device"@ && forall|j: int, other: Seq<char>|
                #![trigger sets(lines(uevent)[j], "DEVTYPE"@, other)]
                i < j < lines(uevent).len() ==> !sets(lines(uevent)[j], "DEVTYPE"@, other),
{
    reveal_strlit("DEVTYPE");
    let all = lines(uevent);
    let key = "DEVTYPE"@;
    let found = properties(all);
    assert(!key.contains('='));
    if other_device_type(uevent) {
        law_properties(all, key, found[key]);
        let i = choose|i: int|
            0 <= i < all.len() && sets(#[trigger] all[i], key, found[key]) && forall|j: int, other: Seq<char>|
                #![trigger sets(all[j], key, other)]
                i < j < all.len() ==> !sets(all[j], key, other);
        assert(sets(lines(uevent)[i], key, found[key]));
    }
    if exists|i: int, value: Seq<char>|
        #![trigger sets(all[i], key, value)]
        0 <= i < all.len() && sets(all[i], key, value) && value != "usb_device"@ && forall|j: int, other: Seq<char>|
            #![trigger sets(all[j], key, other)]
            i < j < all.len() ==> !sets(all[j], key, other) {
        let (i, value) = choose|i: int, value: Seq<char>|
            #![trigger sets(all[i], key, value)]
            0 <= i < all.len() && sets(all[i], key, value) && value != "usb_device"@ && forall|j: int, other: Seq<char>|
                #![trigger sets(all[j], key, other)]
                i < j < all.len() ==> !sets(all[j], key, other);
        law_properties(all, key, value);
        assert(sets(all[i], key, value));
    }
}

// ---- Probes ----------------------------------------------------------------------------------

/// An entry is a device only where it is no root hub and not of another device type, and where it
/// has a vendor and a product id. What is found of it is what its files hold.
pub proof fn law_only_devices_are_found(
    path: Seq<char>,
    name: Option<Seq<char>>,
    files: Files,
    d: UsbDeviceView,
)
    requires
        probe_run(probe_start(path, name), files, 9) == Some(
            Ok::<Option<UsbDeviceView>, ErrorView>(Some(d)),
        ),
    ensures
        name matches Some(text) ==> !root_hub_name(text) && d.port_path == text,
        d.sysfs_path == path,
        text_of(path, files, Attribute::Uevent) matches Ok(uevent) && (uevent matches Some(text)
            ==> !other_device_type(text)),
        value_of(path, files, Attribute::VendorId) matches Ok(Some(id)) && same_letters(
            id,
            d.vendor_id,
        ),
        value_of(path, files, Attribute::ProductId) matches Ok(Some(id)) && same_letters(
            id,
            d.product_id,
        ),
        value_of(path, files, Attribute::Serial) == Ok::<Option<Seq<char>>, ErrorView>(d.serial),
        value_of(path, files, Attribute::ProductName) == Ok::<Option<Seq<char>>, ErrorView>(
            d.product_name,
        ),
        value_of(path, files, Attribute::ConnectType) == Ok::<Option<Seq<char>>, ErrorView>(
            d.connect_type,
        ),
        value_of(path, files, Attribute::Authorized) matches Ok(value) && d.authorized
            == authorized_value(value),
        value_of(path, files, Attribute::DeviceClass) matches Ok(class) && d.is_hub == is_hub(
            class,
            d.interfaces,
        ),
        files(Attribute::Descriptors) is Err ==> d.descriptor_hash is None && d.interfaces.len()
            == 0,
        files(Attribute::Descriptors) matches Ok(bytes) ==> d.descriptor_hash == Some(
            super::descriptors::base64_text(super::descriptors::sha256(bytes@)),
        ) && d.interfaces == super::descriptors::interfaces_of(bytes@),
{
    reveal_with_fuel(probe_run, 11);
    if let Ok(Some(id)) = value_of(path, files, Attribute::VendorId) {
        crate::text_laws::law_case_changes_letters_only(id);
    }
    if let Ok(Some(id)) = value_of(path, files, Attribute::ProductId) {
        crate::text_laws::law_case_changes_letters_only(id);
    }
}

// ---- Scans -----------------------------------------------------------------------------------

/// Devices are looked for below `bus/usb/devices` of the sysfs root.
pub proof fn law_devices_directory(sysfs_root: Seq<char>)
    requires
        sysfs_root.len() > 0,
        sysfs_root.last() != '/',
    ensures
        usb_devices_dir(sysfs_root) == sysfs_root + "/bus/usb/devices"@,
{
    reveal_strlit("bus/usb/devices");
    reveal_strlit("/bus/usb/devices");
    assert(sysfs_root.push('/') + "bus/usb/devices"@ =~= sysfs_root + "/bus/usb/devices"@);
}

/// The probe of an entry found a device.
pub open spec fn found_device(entry: Result<Probed, IoError>, d: UsbDeviceView) -> bool {
    entry matches Ok(Ok(Some(device))) && device@ == d
}

proof fn lemma_entries(entries: Seq<Result<Probed, IoError>>, d: UsbDeviceView)
    ensures
        entries_devices(entries) is Ok <==> forall|i: int|
            0 <= i < entries.len() ==> (#[trigger] entries[i]) is Ok,
        entries_devices(entries) matches Ok(devices) ==> (devices.contains(d) <==> exists|i: int|
            0 <= i < entries.len() && found_device(#[trigger] entries[i], d)),
    decreases entries.len(),
{
    if entries.len() > 0 {
        let rest = entries.drop_last();
        let n = entries.len() - 1;
        lemma_entries(rest, d);
        assert(entries[n] == entries.last());
        assert forall|i: int| 0 <= i < n implies #[trigger] entries[i] == rest[i] by {}
        if entries_devices(rest) is Ok {
            let before = entries_devices(rest)->Ok_0;
            if entries_devices(entries) is Ok {
                let after = entries_devices(entries)->Ok_0;
                if before.contains(d) {
                    let k = choose|k: int| 0 <= k < before.len() && before[k] == d;
                    assert(after[k] == d);
                    let i = choose|i: int|
                        0 <= i < rest.len() && found_device(#[trigger] rest[i], d);
                    assert(found_device(entries[i], d));
                }
                if after.contains(d) && !before.contains(d) {
                    let k = choose|k: int| 0 <= k < after.len() && after[k] == d;
                    if k < before.len() {
                        assert(before[k] == d);
                    }
                    assert(found_device(entries[n], d));
                }
                if found_device(entries[n], d) {
                    assert(after[before.len() as int] == d);
                }
                if exists|i: int| 0 <= i < entries.len() && found_device(#[trigger] entries[i], d) {
                    let i = choose|i: int|
                        0 <= i < entries.len() && found_device(#[trigger] entries[i], d);
                    if i < n {
                        assert(found_device(rest[i], d));
                    }
                }
            }
            if forall|i: int| 0 <= i < entries.len() ==> (#[trigger] entries[i]) is Ok {
                assert(entries[n] is Ok);
            }
        } else {
            let i = choose|i: int| 0 <= i < rest.len() && !((#[trigger] rest[i]) is Ok);
            assert(!(entries[i] is Ok));
        }
        if entries_devices(entries) is Ok {
            assert forall|i: int| 0 <= i < entries.len() implies (#[trigger] entries[i]) is Ok by {
                if i < n {
                    assert(rest[i] is Ok);
                }
            }
        }
    }
}

/// A scan finds the devices that the probes of the entries found, and no others, in the order of
/// their ports. An entry whose probe failed is passed over. A scan fails exactly where the
/// directory or an entry could not be listed.
pub proof fn law_scans(directory: Seq<char>, listing: Listing<Probed>, d: UsbDeviceView)
    ensures
        scanned_devices(directory, listing) is Ok <==> (listing matches Ok(entries) && forall|i: int|
            0 <= i < entries@.len() ==> (#[trigger] entries@[i]) is Ok),
        scanned_devices(directory, listing) matches Ok(devices) ==> {
            &&& devices.contains(d) <==> exists|i: int|
                0 <= i < listing->Ok_0@.len() && found_device(#[trigger] listing->Ok_0@[i], d)
            &&& forall|i: int, j: int|
                0 <= i < j < devices.len() ==> !crate::order::text_less(
                    (#[trigger] devices[j]).port_path,
                    (#[trigger] devices[i]).port_path,
                )
        },
        listing matches Err(error) ==> scanned_devices(directory, listing) == Err::<
            Seq<UsbDeviceView>,
            ErrorView,
        >(
            ErrorView::Io {
                context: "failed to read USB sysfs directory "@ + directory,
                source: error@,
            },
        ),
{
    broadcast use vstd::seq_lib::group_to_multiset_ensures;

    if let Ok(entries) = listing {
        lemma_entries(entries@, d);
        if entries_devices(entries@) is Ok {
            let found = entries_devices(entries@)->Ok_0;
            law_sorted_by_name::<UsbDevice>(found);
            let sorted = sorted_by_name::<UsbDevice>(found);
            assert(sorted.contains(d) <==> sorted.to_multiset().count(d) > 0);
            assert(found.contains(d) <==> found.to_multiset().count(d) > 0);
            assert(in_name_order::<UsbDevice>(sorted));
        }
    }
}

/// The first entry that could not be listed is what a scan fails with.
pub proof fn law_entries_that_cannot_be_listed(
    directory: Seq<char>,
    entries: Vec<Result<Probed, IoError>>,
    i: int,
)
    requires
        0 <= i < entries@.len(),
        entries@[i] is Err,
        forall|j: int| 0 <= j < i ==> (#[trigger] entries@[j]) is Ok,
    ensures
        scanned_devices(directory, Ok(entries)) == Err::<Seq<UsbDeviceView>, ErrorView>(
            ErrorView::Io { context: "failed to read sysfs entry"@, source: (entries@[i]->Err_0)@ },
        ),
{
    lemma_first_unlisted(entries@, i);
}

proof fn lemma_first_unlisted(entries: Seq<Result<Probed, IoError>>, i: int)
    requires
        0 <= i < entries.len(),
        entries[i] is Err,
        forall|j: int| 0 <= j < i ==> (#[trigger] entries[j]) is Ok,
    ensures
        entries_devices(entries) == Err::<Seq<UsbDeviceView>, ErrorView>(
            ErrorView::Io { context: "failed to read sysfs entry"@, source: (entries[i]->Err_0)@ },
        ),
    decreases entries.len(),
{
    let rest = entries.drop_last();
    if i < rest.len() {
        lemma_first_unlisted(rest, i);
    } else {
        assert forall|j: int| 0 <= j < rest.len() implies (#[trigger] rest[j]) is Ok by {
            assert(rest[j] == entries[j]);
        }
        lemma_entries(rest, arbitrary());
    }
}

} // verus!
