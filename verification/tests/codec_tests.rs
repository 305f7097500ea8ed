use rainmaker::codec::decode_params_payload;
use rainmaker::codec::encode_params_payload;
use rainmaker::node::DeviceUpdate;
use rainmaker::param::ParamValue;
use rainmaker::proto::decode_message;
use rainmaker::proto::encode_message;
use rainmaker::proto::LocalCtrlMessage;
use rainmaker::proto::PropertyInfo;
use rainmaker::proto::PropertyWrite;
use rainmaker::proto::Status;

fn sample_payload() -> Vec<DeviceUpdate> {
    vec![
        DeviceUpdate {
            device: "LED".to_string(),
            params: vec![
                ("Power".to_string(), ParamValue::Bool(true)),
                ("Brightness".to_string(), ParamValue::Integer(-42)),
                ("Label".to_string(), ParamValue::Text("étagère".to_string())),
            ],
        },
        DeviceUpdate {
            device: "Fan".to_string(),
            params: Vec::new(),
        },
    ]
}

#[test]
fn params_payload_round_trips() {
    let payload = sample_payload();
    let bytes = encode_params_payload(&payload);
    let back = decode_params_payload(bytes.as_slice()).expect("must decode");
    assert_eq!(back, payload);
}

#[test]
fn empty_payload_round_trips() {
    let payload: Vec<DeviceUpdate> = Vec::new();
    let bytes = encode_params_payload(&payload);
    assert_eq!(bytes, vec![0u8; 8]);
    let back = decode_params_payload(bytes.as_slice()).expect("must decode");
    assert_eq!(back.len(), 0);
}

#[test]
fn payload_encoding_is_exact_for_one_bool() {
    let payload = vec![DeviceUpdate {
        device: "A".to_string(),
        params: vec![("P".to_string(), ParamValue::Bool(true))],
    }];
    let bytes = encode_params_payload(&payload);
    let expected: Vec<u8> = vec![
        1, 0, 0, 0, 0, 0, 0, 0, // one device entry
        1, 0, 0, 0, 0, 0, 0, 0, b'A', // device name
        1, 0, 0, 0, 0, 0, 0, 0, // one param entry
        1, 0, 0, 0, 0, 0, 0, 0, b'P', // param name
        0, 1, // bool tag, true
    ];
    assert_eq!(bytes, expected);
}

#[test]
fn truncated_payload_is_rejected() {
    let payload = sample_payload();
    let mut bytes = encode_params_payload(&payload);
    bytes.pop();
    assert!(decode_params_payload(bytes.as_slice()).is_none());
}

#[test]
fn trailing_garbage_is_rejected() {
    let payload = sample_payload();
    let mut bytes = encode_params_payload(&payload);
    bytes.push(0);
    assert!(decode_params_payload(bytes.as_slice()).is_none());
}

#[test]
fn bad_value_tag_is_rejected() {
    let payload = vec![DeviceUpdate {
        device: "A".to_string(),
        params: vec![("P".to_string(), ParamValue::Bool(false))],
    }];
    let mut bytes = encode_params_payload(&payload);
    let tag_pos = bytes.len() - 2;
    bytes[tag_pos] = 99;
    assert!(decode_params_payload(bytes.as_slice()).is_none());
}

#[test]
fn invalid_utf8_name_is_rejected() {
    let payload = vec![DeviceUpdate {
        device: "AB".to_string(),
        params: Vec::new(),
    }];
    let mut bytes = encode_params_payload(&payload);
    // the two name bytes sit after the two u64 length prefixes
    bytes[16] = 0xff;
    bytes[17] = 0xfe;
    assert!(decode_params_payload(bytes.as_slice()).is_none());
}

#[test]
fn message_round_trips_for_every_kind() {
    let messages = vec![
        LocalCtrlMessage::CmdGetPropertyCount,
        LocalCtrlMessage::CmdGetPropertyValues { indices: vec![0, 1, 7] },
        LocalCtrlMessage::CmdSetPropertyValues {
            props: vec![PropertyWrite { name: "params".to_string(), value: vec![1, 2, 3] }],
        },
        LocalCtrlMessage::RespGetPropertyCount { status: Status::Success, count: 2 },
        LocalCtrlMessage::RespGetPropertyValues {
            status: Status::InvalidArgument,
            props: vec![PropertyInfo {
                name: "config".to_string(),
                ptype: 1,
                flags: 1,
                value: vec![9, 9],
            }],
        },
        LocalCtrlMessage::RespSetPropertyValues {
            status: Status::Fail,
            statuses: vec![Status::Success, Status::Fail],
        },
    ];
    for msg in messages {
        let bytes = encode_message(&msg);
        let back = decode_message(bytes.as_slice()).expect("must decode");
        assert_eq!(back, msg);
    }
}

#[test]
fn unknown_message_tag_is_rejected() {
    assert!(decode_message(&[42]).is_none());
    assert!(decode_message(&[]).is_none());
}

#[test]
fn truncated_message_is_rejected() {
    let msg = LocalCtrlMessage::CmdGetPropertyValues { indices: vec![5] };
    let mut bytes = encode_message(&msg);
    bytes.pop();
    assert!(decode_message(bytes.as_slice()).is_none());
}
