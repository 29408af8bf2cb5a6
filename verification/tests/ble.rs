use eudi_access::transport::ble::{
    advertises_service, assign_characteristics, characteristic_role, find_service,
    fragment_frame, uuid_eq, BleError, CharacteristicRole, FrameAssembler, MdocCharacteristics,
    MDOC_C2S_UUID, MDOC_S2C_UUID, MDOC_STATE_UUID,
};

fn reassemble(fragments: &[Vec<u8>]) -> Result<Option<Vec<u8>>, BleError> {
    let mut a = FrameAssembler::new();
    let mut out = None;
    for (i, f) in fragments.iter().enumerate() {
        let r = a.push(f)?;
        if r.is_some() {
            assert_eq!(i, fragments.len() - 1);
            out = r;
        }
    }
    Ok(out)
}

#[test]
fn message_of_45_bytes_is_three_fragments() {
    let frame: Vec<u8> = (0..45u8).collect();
    let f = fragment_frame(&frame);
    assert_eq!(f.len(), 3);
    assert_eq!(f[0][0], 0x01);
    assert_eq!(&f[0][1..], &frame[0..20]);
    assert_eq!(f[1][0], 0x01);
    assert_eq!(&f[1][1..], &frame[20..40]);
    assert_eq!(f[2], vec![0x00, 40, 41, 42, 43, 44]);
}

#[test]
fn message_of_exactly_twenty_bytes_is_one_fragment() {
    let frame = vec![7u8; 20];
    let f = fragment_frame(&frame);
    assert_eq!(f.len(), 1);
    assert_eq!(f[0].len(), 21);
    assert_eq!(f[0][0], 0x00);
}

#[test]
fn empty_message_is_no_fragment() {
    assert!(fragment_frame(&[]).is_empty());
}

#[test]
fn fragments_reassemble_into_the_message() {
    for len in [1usize, 19, 20, 21, 40, 41, 100, 1000] {
        let frame: Vec<u8> = (0..len).map(|i| (i * 7 % 256) as u8).collect();
        let f = fragment_frame(&frame);
        assert!(f.iter().all(|x| x.len() >= 2 && x.len() <= 21));
        assert_eq!(reassemble(&f).unwrap(), Some(frame));
    }
}

#[test]
fn assembler_starts_afresh_after_a_message() {
    let mut a = FrameAssembler::new();
    assert_eq!(a.push(&[0x01, 1, 2]), Ok(None));
    assert_eq!(a.push(&[0x00, 3]), Ok(Some(vec![1, 2, 3])));
    assert_eq!(a.push(&[0x00, 4]), Ok(Some(vec![4])));
    assert_eq!(a.push(&[0x00]), Ok(Some(vec![])));
}

#[test]
fn empty_notification_is_an_error_and_drops_the_partial_message() {
    let mut a = FrameAssembler::new();
    assert_eq!(a.push(&[0x01, 1, 2]), Ok(None));
    assert_eq!(a.push(&[]), Err(BleError::EmptyFrame));
    assert_eq!(a.push(&[0x00, 9]), Ok(Some(vec![9])));
}

#[test]
fn any_nonzero_header_means_more() {
    let mut a = FrameAssembler::new();
    assert_eq!(a.push(&[0x07, 1]), Ok(None));
    assert_eq!(a.push(&[0x00, 2]), Ok(Some(vec![1, 2])));
}

#[test]
fn characteristic_roles() {
    assert_eq!(characteristic_role(&MDOC_STATE_UUID), Some(CharacteristicRole::State));
    assert_eq!(characteristic_role(&MDOC_C2S_UUID), Some(CharacteristicRole::Client2Server));
    assert_eq!(characteristic_role(&MDOC_S2C_UUID), Some(CharacteristicRole::Server2Client));
    assert_eq!(characteristic_role(&[0u8; 16]), None);
    assert_eq!(
        uuid::Uuid::from_bytes(MDOC_STATE_UUID).to_string(),
        "00000001-a123-48ce-896b-4c76973373e6"
    );
    assert_eq!(
        uuid::Uuid::from_bytes(MDOC_C2S_UUID).to_string(),
        "00000002-a123-48ce-896b-4c76973373e6"
    );
    assert_eq!(
        uuid::Uuid::from_bytes(MDOC_S2C_UUID).to_string(),
        "00000003-a123-48ce-896b-4c76973373e6"
    );
}

#[test]
fn characteristics_are_assigned_by_uuid() {
    let other = [9u8; 16];
    let list = vec![other, MDOC_S2C_UUID, MDOC_STATE_UUID, other, MDOC_C2S_UUID];
    assert_eq!(
        assign_characteristics(&list),
        Ok(MdocCharacteristics { state: 2, client2server: 4, server2client: 1 })
    );
}

#[test]
fn later_characteristic_of_a_role_wins() {
    let list = vec![MDOC_C2S_UUID, MDOC_S2C_UUID, MDOC_STATE_UUID, MDOC_C2S_UUID];
    assert_eq!(assign_characteristics(&list).unwrap().client2server, 3);
}

#[test]
fn missing_characteristics_are_reported_in_order() {
    assert_eq!(assign_characteristics(&vec![]), Err(BleError::MissingClient2Server));
    assert_eq!(
        assign_characteristics(&vec![MDOC_C2S_UUID, MDOC_STATE_UUID]),
        Err(BleError::MissingServer2Client)
    );
    assert_eq!(
        assign_characteristics(&vec![MDOC_S2C_UUID, MDOC_C2S_UUID]),
        Err(BleError::MissingState)
    );
    assert_eq!(
        assign_characteristics(&vec![MDOC_STATE_UUID, MDOC_S2C_UUID]),
        Err(BleError::MissingClient2Server)
    );
}

#[test]
fn finding_the_service() {
    let target = [5u8; 16];
    let list = vec![[1u8; 16], target, [2u8; 16], target];
    assert_eq!(find_service(&list, &target), Some(1));
    assert_eq!(find_service(&list, &[3u8; 16]), None);
    assert!(advertises_service(&list, &target));
    assert!(!advertises_service(&list, &[3u8; 16]));
    assert!(!advertises_service(&vec![], &target));
    assert!(uuid_eq(&target, &[5u8; 16]));
    let mut near = target;
    near[15] = 6;
    assert!(!uuid_eq(&target, &near));
}
