use bytes::Bytes;
use rseip::ab_eip::instance::{get_attribute_list, GetInstanceAttributeList, ListState, ListStep};
use rseip::ab_eip::symbol::SymbolType;
use rseip::ab_eip::template::decoder::{DefaultDefinitionDecoder, DefinitionDecoder};
use rseip::ab_eip::template::{
    decode_definition, find_template, find_template_reply, read_template, read_template_reply,
    Template, TemplateRead,
};
use rseip::cip::mr::{MessageRouterReply, Status};
use rseip::codec::Encodable;
use rseip::error::{Error, TemplateError};

fn reply(service: u8, general: u8, data: Vec<u8>) -> MessageRouterReply<Bytes> {
    MessageRouterReply::new(service, Status { general, extended: 0 }, Bytes::from(data))
}

fn template_object() -> Vec<u8> {
    vec![
        4, 0, // four attributes
        1, 0, 0, 0, 0x34, 0x12, // handle
        2, 0, 0, 0, 2, 0, // member count
        4, 0, 0, 0, 10, 0, 0, 0, // object size in words
        5, 0, 0, 0, 8, 0, 0, 0, // structure size
    ]
}

fn definition() -> Vec<u8> {
    let mut d = vec![
        0, 0, 0xC4, 0, 0, 0, 0, 0, // member a: DINT at 0
        1, 0, 0xC1, 0, 4, 0, 0, 0, // member b: BOOL bit 1 at 4
    ];
    d.extend_from_slice(b"UDT;n\0a\0b\0");
    d
}

#[test]
fn template_object_decode() {
    let t = Template::decode(&template_object()).unwrap();
    assert_eq!(t.handle, 0x1234);
    assert_eq!(t.member_count, 2);
    assert_eq!(t.object_size, 10);
    assert_eq!(t.struct_size, 8);
    assert_eq!(t.instance_id, 0);

    let mut bad = template_object();
    bad[0] = 3;
    assert_eq!(
        Template::decode(&bad),
        Err(Error::Template(TemplateError::UnexpectedItemCount(3)))
    );
    let mut bad = template_object();
    bad[4] = 5;
    assert_eq!(
        Template::decode(&bad),
        Err(Error::Template(TemplateError::AttributeStatus { id: 1, status: 5 }))
    );
    let mut bad = template_object();
    bad[8] = 3;
    assert_eq!(Template::decode(&bad), Err(Error::Template(TemplateError::UnexpectedAttribute(3))));
    let mut long = template_object();
    long.push(0);
    assert_eq!(Template::decode(&long), Err(Error::Template(TemplateError::TooMuchData)));
    assert_eq!(
        Template::decode(&template_object()[..20]),
        Err(Error::InvalidLength { actual: 20, expected: 28 })
    );
    assert_eq!(
        Template::decode(&template_object()[..28]),
        Err(Error::InvalidLength { actual: 2, expected: 4 })
    );

    let req = find_template(0x0102);
    assert_eq!(
        &req.try_into_bytes().unwrap()[..],
        &[0x03, 0x03, 0x20, 0x6C, 0x25, 0x00, 0x02, 0x01, 4, 0, 1, 0, 2, 0, 4, 0, 5, 0]
    );
    let t = find_template_reply(0x0102, &reply(0x83, 0, template_object())).unwrap();
    assert_eq!(t.instance_id, 0x0102);
    assert_eq!(
        find_template_reply(1, &reply(0x84, 0, template_object())),
        Err(Error::UnexpectedService(0x84))
    );
    assert_eq!(
        find_template_reply(1, &reply(0x83, 5, template_object())),
        Err(Error::Cip { general: 5, extended: 0 })
    );
}

#[test]
fn template_definition_decode() {
    let def = decode_definition(&definition(), 2).unwrap();
    assert_eq!(def.name(), "UDT");
    assert_eq!(def.members.len(), 2);
    assert_eq!(def.members[0].name, "a");
    assert_eq!(def.members[0].type_info, SymbolType(0xC4));
    assert_eq!(def.members[1].name, "b");
    assert_eq!(def.members[1].array_size, 1);
    assert_eq!(def.members[1].offset, 4);
    assert_eq!(def.member("b").unwrap().offset, 4);
    assert!(def.member("c").is_none());
    assert_eq!(
        decode_definition(&definition()[..20], 2).unwrap_err(),
        Error::Template(TemplateError::UnexpectedEof)
    );
}

#[test]
fn template_read_in_chunks() {
    assert_eq!(
        TemplateRead::new().object_size(10).begin().unwrap_err(),
        Error::Template(TemplateError::MemberCountUnset)
    );
    assert_eq!(
        TemplateRead::new().member_count(2).object_size(5).begin().unwrap_err(),
        Error::Template(TemplateError::ObjectSizeUnset)
    );
    let read = TemplateRead::new().instance_id(0x10).member_count(2).object_size(10);
    let mut st = read.begin().unwrap();
    // 10 words = 40 bytes, less 23 of header = 17, padded to 20
    assert_eq!(st.total, 20);
    assert_eq!(st.next_request(), Ok((0, 20)));
    let def = definition();
    let (more, first) =
        read_template_reply(&reply(0xCC, 0x06, def[..12].to_vec())).unwrap();
    assert!(more);
    assert!(st.received(2, more, &first).unwrap().is_none());
    assert_eq!(st.next_request(), Ok((12, 8)));
    let (more, rest) = read_template_reply(&reply(0xCC, 0, def[12..].to_vec())).unwrap();
    assert!(!more);
    let out = st.received(2, more, &rest).unwrap().unwrap();
    assert_eq!(out.name, "UDT");
    assert_eq!(st.next_request(), Err(Error::Template(TemplateError::OffsetOutOfRange)));

    let req = read_template(0x10, 12, 8);
    assert_eq!(
        &req.try_into_bytes().unwrap()[..],
        &[0x4C, 0x02, 0x20, 0x6C, 0x24, 0x10, 12, 0, 0, 0, 8, 0]
    );
    assert_eq!(
        read_template_reply(&reply(0xCC, 0x05, vec![])),
        Err(Error::Cip { general: 5, extended: 0 })
    );
}

#[test]
fn definition_decoder_chunks() {
    let mut d = DefaultDefinitionDecoder::default();
    assert_eq!(
        d.partial_decode(Bytes::new()),
        Err(Error::Template(TemplateError::MemberCountUnset))
    );
    d.member_count(2);
    let def = definition();
    d.partial_decode(Bytes::from(def[..23].to_vec())).unwrap();
    assert_eq!(d.name, "UDT");
    assert_eq!(d.index, 1);
    assert_eq!(d.decode().unwrap_err(), Error::Template(TemplateError::NotEnoughData));
    d.partial_decode(Bytes::from_static(b"b\0")).unwrap();
    assert_eq!(d.index, 2);
    let out = d.decode().unwrap();
    assert_eq!(out.name, "UDT");
    assert_eq!(out.members[0].name, "a");
    assert_eq!(out.members[1].name, "b");
    assert_eq!(d.member_count, 0);
    assert!(d.name.is_empty());
}

#[test]
fn list_tags_state_machine() {
    let req = get_attribute_list(0);
    assert_eq!(
        &req.try_into_bytes().unwrap()[..],
        &[0x55, 0x02, 0x20, 0x6B, 0x24, 0x00, 2, 0, 1, 0, 2, 0]
    );
    let list = GetInstanceAttributeList::new().start_instance(5);
    assert!(list.all);
    let (state, step) = list.step(list.start());
    assert!(matches!(step, ListStep::Send(5)));
    let mut records = vec![7, 0, 0, 0, 3, 0];
    records.extend_from_slice(b"abc");
    records.extend_from_slice(&[0xC4, 0x00]);
    records.extend_from_slice(&[9, 0, 0, 0, 1, 0, b'x', 0xC1, 0x00]);
    let state = match state {
        ListState::Request(s) => {
            GetInstanceAttributeList::received(s, &reply(0xD5, 0x06, records)).unwrap()
        }
        _ => panic!("expected a request"),
    };
    let (state, step) = list.step(state);
    match step {
        ListStep::Item(item) => {
            assert_eq!(item.id, 7);
            assert_eq!(item.name, "abc");
            assert_eq!(item.symbol_type, SymbolType(0xC4));
        }
        _ => panic!("expected an item"),
    }
    let (state, step) = list.step(state);
    assert!(matches!(step, ListStep::Item(ref i) if i.id == 9 && i.name == "x"));
    let (state, step) = list.step(state);
    assert!(matches!(step, ListStep::Send(10)));
    let state = match state {
        ListState::Request(s) => GetInstanceAttributeList::received(s, &reply(0xD5, 0, vec![])).unwrap(),
        _ => panic!("expected a request"),
    };
    let (state, step) = list.step(state);
    assert!(matches!(step, ListStep::Done));
    assert!(matches!(state, ListState::End));

    assert!(matches!(
        GetInstanceAttributeList::received(1, &reply(0xD5, 0x05, vec![])),
        Err(Error::Cip { general: 5, extended: 0 })
    ));
    let bad = ListState::HasData { start_instance: 0, has_more: false, data: Bytes::from_static(&[1, 0]) };
    let (state, step) = list.step(bad);
    assert!(matches!(step, ListStep::Failed(Error::InvalidLength { actual: 2, expected: 6 })));
    assert!(matches!(state, ListState::End));
}

#[test]
fn repeated_member_names_keep_the_last() {
    let mut d = vec![0, 0, 0xC4, 0, 0, 0, 0, 0, 1, 0, 0xC1, 0, 4, 0, 0, 0, 2, 0, 0xC3, 0, 8, 0, 0, 0];
    d.extend_from_slice(b"T\0a\0b\0a\0");
    let def = decode_definition(&d, 3).unwrap();
    assert_eq!(def.members.len(), 2);
    assert_eq!(def.members[0].name, "b");
    assert_eq!(def.members[1].name, "a");
    assert_eq!(def.member("a").unwrap().offset, 8);
    assert_eq!(def.member("a").unwrap().array_size, 2);
}
