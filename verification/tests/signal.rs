use autosar_data_abstraction::element::{Element, ElementName, ElementRef, EnumItem};
use autosar_data_abstraction::error::AutosarAbstractionError;
use autosar_data_abstraction::signal::{
    dependent_removals, refs_of_kind, removal_kind, still_used, CommunicationDirection, ConnectedPort, ISignal,
    ISignalGroup, ISignalTriggering, PortConnection, Removal, RemovalKind, TriggeringPorts, SystemSignal,
    SystemSignalGroup, TransferProperty, UsageFacts,
};
use autosar_data_abstraction::values::{
    ArrayValueSpecification, NumericalValueSpecification, SchemaSupport, TextValueSpecification, Unit, ValueSpecification,
};

fn r(kind: ElementName, path: &str) -> ElementRef {
    ElementRef {
        kind,
        path: path.to_string(),
    }
}

fn zero() -> ValueSpecification {
    NumericalValueSpecification {
        label: None,
        value: 0.0f64.to_bits(),
    }
    .into()
}

#[test]
fn test_signal() {
    let unit = Unit {
        path: "/test/unit".to_string(),
    };
    let compu_method = r(ElementName::CompuMethod, "/test/compu_method");
    let data_constr = r(ElementName::DataConstr, "/test/data_constr");
    let sw_base_type = r(ElementName::SwBaseType, "/test/sw_base_type");

    let mut sys_signal = SystemSignal::new("sys_signal", "/test");
    let mut signal = ISignal::new("signal", "/test", 8, &sys_signal, Some(&sw_base_type)).unwrap();

    sys_signal.set_unit(&unit).unwrap();
    sys_signal.set_compu_method(&compu_method).unwrap();
    sys_signal.set_data_constr(&data_constr).unwrap();

    assert_eq!(signal.length(), Some(8));
    assert_eq!(signal.datatype(), Some(sw_base_type));
    assert_eq!(signal.system_signal(), Some(sys_signal.element_ref()));
    assert_eq!(sys_signal.unit(), Some(unit));
    assert_eq!(sys_signal.compu_method(), Some(compu_method));
    assert_eq!(sys_signal.data_constr(), Some(data_constr));

    // init value
    signal.set_init_value(Some(&zero()), SchemaSupport::latest()).unwrap();
    assert_eq!(signal.init_value(), Some(zero()));

    signal.set_init_value(None, SchemaSupport::latest()).unwrap();
    assert_eq!(signal.init_value(), None);
}

#[test]
fn test_signal_data_transformations() {
    let sw_base_type = r(ElementName::SwBaseType, "/test/sw_base_type");
    let sys_signal = SystemSignal::new("sys_signal", "/test");
    let mut signal = ISignal::new("signal", "/test", 8, &sys_signal, Some(&sw_base_type)).unwrap();
    let data_transformation = r(
        ElementName::DataTransformation,
        "/test/data_transformation_set/someip_trans",
    );

    signal.add_data_transformation(&data_transformation).unwrap();

    assert_eq!(signal.data_transformations().len(), 1);
    assert_eq!(signal.data_transformations().first(), Some(&data_transformation));
}

#[test]
fn test_signal_group_data_transformations() {
    let sys_signal_group = SystemSignalGroup::new("sys_signal_group", "/test");
    let mut signal_group = ISignalGroup::new("signal_group", "/test", &sys_signal_group);
    let data_transformation = r(
        ElementName::DataTransformation,
        "/test/data_transformation_set/someip_trans",
    );

    signal_group.add_data_transformation(&data_transformation).unwrap();
    assert_eq!(signal_group.data_transformations().len(), 1);
    assert_eq!(signal_group.data_transformations().first(), Some(&data_transformation));
}

#[test]
fn test_signal_group() {
    let mut sys_signal_group = SystemSignalGroup::new("sys_signal_group", "/test");
    let mut signal_group = ISignalGroup::new("signal_group", "/test", &sys_signal_group);
    assert_eq!(signal_group.system_signal_group(), Some(sys_signal_group.element_ref()));

    let sys_signal = SystemSignal::new("sys_signal", "/test");
    let signal = ISignal::new("signal", "/test", 8, &sys_signal, None).unwrap();
    assert_eq!(signal.system_signal(), Some(sys_signal.element_ref()));

    sys_signal_group.add_signal(&sys_signal).unwrap();
    assert_eq!(sys_signal_group.signals(), vec![sys_signal.element_ref()]);

    // the group that holds the system signal of the signal
    let group_of_system_signal = sys_signal_group.element_ref();
    signal_group.add_signal(&signal, Some(&group_of_system_signal)).unwrap();
    assert_eq!(signal_group.signals().len(), 1);
}

#[test]
fn test_signal_triggering() {
    let sys_signal = SystemSignal::new("sys_signal", "/test");
    let sw_base_type = r(ElementName::SwBaseType, "/test/sw_base_type");
    let signal = ISignal::new("signal", "/test", 8, &sys_signal, Some(&sw_base_type)).unwrap();

    let mut st = ISignalTriggering::new(&signal, "/cluster/channel", &vec![]).unwrap();
    assert_eq!(st.name().as_deref(), Some("ST_signal"));
    assert_eq!(st.signal(), Some(signal.element_ref()));

    let ecu = r(ElementName::Other, "/test/ecu");
    let connector = "/test/ecu/controller/connection";
    assert_eq!(st.signal_ports().len(), 0);
    let ports = vec![];
    let port = match st
        .connect_to_ecu(&ports, &ecu, CommunicationDirection::In, Some(connector))
        .unwrap()
    {
        ConnectedPort::Created(p) => p,
        ConnectedPort::Existing(_) => panic!("no port existed"),
    };
    assert_eq!(st.signal_ports().len(), 1);
    assert_eq!(port.name().as_deref(), Some("ST_signal_Rx"));
    assert_eq!(port.element_ref().path, "/test/ecu/controller/connection/ST_signal_Rx");
    assert_eq!(port.communication_direction(), Some(CommunicationDirection::In));

    let mut port = port;
    port.set_communication_direction(CommunicationDirection::Out).unwrap();
    assert_eq!(port.communication_direction(), Some(CommunicationDirection::Out));

    // connecting again in the same direction reuses the port
    let ports = vec![PortConnection {
        ecu: Some(ecu.clone_ref()),
        direction: Some(CommunicationDirection::Out),
    }];
    match st
        .connect_to_ecu(&ports, &ecu, CommunicationDirection::Out, Some(connector))
        .unwrap()
    {
        ConnectedPort::Existing(p) => assert_eq!(p, port.element_ref()),
        ConnectedPort::Created(_) => panic!("the port existed"),
    }
    assert_eq!(st.signal_ports().len(), 1);
}

#[test]
fn test_remove_signal() {
    let sys_signal = SystemSignal::new("sys_signal", "/test");
    let sw_base_type = r(ElementName::SwBaseType, "/test/sw_base_type");
    let signal = ISignal::new("signal", "/test", 8, &sys_signal, Some(&sw_base_type)).unwrap();
    let mut st = ISignalTriggering::new(&signal, "/test/cluster/channel", &vec![]).unwrap();
    let port = match st
        .connect_to_ecu(&vec![], &r(ElementName::EcuInstance, "/test/ecu"), CommunicationDirection::In, Some("/test/ecu/conn"))
        .unwrap()
    {
        ConnectedPort::Created(p) => p,
        ConnectedPort::Existing(_) => panic!("no port existed"),
    };

    // removing the signal removes the signal, its mapping, and its triggering with its ports
    let mapping = r(ElementName::ISignalToIPduMapping, "/test/pdu/mapping");
    let triggerings = vec![TriggeringPorts {
        triggering: st.element_ref(),
        ports: st.signal_ports(),
    }];
    assert_eq!(
        signal.removals(&vec![mapping.clone_ref()], &triggerings),
        vec![signal.element_ref(), mapping, port.element_ref(), st.element_ref()]
    );

    // a deep removal takes along what is no longer used: nothing refers to the data type
    // and the system signal once the signal is gone
    let facts: Vec<UsageFacts> = signal
        .removal_candidates(None)
        .into_iter()
        .map(|item| UsageFacts { item, signal_count: 0, referrer_count: 0 })
        .collect();
    assert_eq!(
        dependent_removals(true, &facts),
        vec![
            Removal { item: sw_base_type, how: RemovalKind::Element },
            Removal { item: sys_signal.element_ref(), how: RemovalKind::SystemSignal },
        ]
    );
    assert!(dependent_removals(false, &facts).is_empty());
}

// ---------------------------------------------------------------------------
// further cases

#[test]
fn signal_bit_length_limit() {
    let sys_signal = SystemSignal::new("sys_signal", "/test");
    let max = u32::MAX as u64 * 8;
    assert!(ISignal::new("s", "/test", max, &sys_signal, None).is_ok());
    assert_eq!(
        ISignal::new("s", "/test", max + 1, &sys_signal, None).err(),
        Some(AutosarAbstractionError::InvalidParameter(
            "isignal s: bit length 34359738361 is too big".to_string()
        ))
    );
}

#[test]
fn signal_length_and_datatype_change() {
    let sys_signal = SystemSignal::new("sys_signal", "/test");
    let mut signal = ISignal::new("signal", "/test", 8, &sys_signal, None).unwrap();
    assert_eq!(signal.datatype(), None);
    assert_eq!(signal.compu_method(), None);
    signal.set_length(16).unwrap();
    assert_eq!(signal.length(), Some(16));
    let dt = r(ElementName::SwBaseType, "/test/other");
    signal.set_datatype(&dt).unwrap();
    assert_eq!(signal.datatype(), Some(dt));
    assert_eq!(signal.length(), Some(16));
    let other = SystemSignal::new("other", "/test");
    signal.set_system_signal(&other).unwrap();
    assert_eq!(signal.system_signal().unwrap().path, "/test/other");
}

#[test]
fn init_value_kinds() {
    let sys_signal = SystemSignal::new("sys_signal", "/test");
    let mut signal = ISignal::new("signal", "/test", 8, &sys_signal, None).unwrap();
    let record: ValueSpecification = autosar_data_abstraction::values::RecordValueSpecification {
        label: None,
        values: vec![],
    }
    .into();
    assert_eq!(
        signal.set_init_value(Some(&record), SchemaSupport::latest()),
        Err(AutosarAbstractionError::InvalidParameter(
            "The init value must be a NumericalValueSpecification, TextValueSpecification or ArrayValueSpecification"
                .to_string()
        ))
    );
    assert_eq!(signal.init_value(), None);

    let text: ValueSpecification = TextValueSpecification {
        label: None,
        value: "abc".to_string(),
    }
    .into();
    signal.set_init_value(Some(&text), SchemaSupport::latest()).unwrap();
    assert_eq!(
        signal.init_value(),
        Some(
            TextValueSpecification {
                label: None,
                value: "abc".to_string(),
            }
            .into()
        )
    );
    // a second init value replaces the first
    let array: ValueSpecification = ArrayValueSpecification {
        label: None,
        values: vec![zero()],
    }
    .into();
    signal.set_init_value(Some(&array), SchemaSupport::latest()).unwrap();
    assert_eq!(
        signal.init_value(),
        Some(
            ArrayValueSpecification {
                label: None,
                values: vec![zero()],
            }
            .into()
        )
    );
}

#[test]
fn signal_group_mismatch() {
    let sys_signal_group = SystemSignalGroup::new("sys_signal_group", "/test");
    let mut signal_group = ISignalGroup::new("signal_group", "/test", &sys_signal_group);
    let sys_signal = SystemSignal::new("sys_signal", "/test");
    let signal = ISignal::new("signal", "/test", 8, &sys_signal, None).unwrap();
    // the system signal is in no group
    assert_eq!(
        signal_group.add_signal(&signal, None),
        Err(AutosarAbstractionError::InvalidParameter(
            "The isignal and the system signal must both be part of corresponding signal groups".to_string()
        ))
    );
    let other = r(ElementName::SystemSignalGroup, "/test/other_group");
    assert!(signal_group.add_signal(&signal, Some(&other)).is_err());
    assert!(signal_group.signals().is_empty());
}

#[test]
fn connect_to_unconnected_ecu() {
    let sys_signal = SystemSignal::new("sys_signal", "/test");
    let signal = ISignal::new("signal", "/test", 8, &sys_signal, None).unwrap();
    let mut st = ISignalTriggering::new(&signal, "/cluster/channel", &vec![]).unwrap();
    let ecu = r(ElementName::Other, "/test/ecu");
    assert_eq!(
        st.connect_to_ecu(&vec![], &ecu, CommunicationDirection::Out, None).err(),
        Some(AutosarAbstractionError::InvalidParameter(
            "The ECU is not connected to the channel".to_string()
        ))
    );
    let port = match st
        .connect_to_ecu(&vec![], &ecu, CommunicationDirection::Out, Some("/c"))
        .unwrap()
    {
        ConnectedPort::Created(p) => p,
        ConnectedPort::Existing(_) => panic!("no port existed"),
    };
    assert_eq!(port.name().as_deref(), Some("ST_signal_Tx"));
}

#[test]
fn triggering_of_group() {
    let sys_signal_group = SystemSignalGroup::new("sys_signal_group", "/test");
    let signal_group = ISignalGroup::new("signal_group", "/test", &sys_signal_group);
    let st = ISignalTriggering::new_group(&signal_group, "/cluster/channel", &vec![]).unwrap();
    assert_eq!(st.element_ref().path, "/cluster/channel/ST_signal_group");
    assert_eq!(st.signal(), None);
}

#[test]
fn transfer_property_conversions() {
    let all = [
        (TransferProperty::Pending, EnumItem::Pending),
        (TransferProperty::Triggered, EnumItem::Triggered),
        (TransferProperty::TriggeredOnChange, EnumItem::TriggeredOnChange),
        (
            TransferProperty::TriggeredOnChangeWithoutRepetition,
            EnumItem::TriggeredOnChangeWithoutRepetition,
        ),
        (
            TransferProperty::TriggeredWithoutRepetition,
            EnumItem::TriggeredWithoutRepetition,
        ),
    ];
    for (property, item) in all {
        let converted: EnumItem = property.into();
        assert_eq!(converted, item);
        assert_eq!(TransferProperty::try_from(item).unwrap(), property);
    }
    assert_eq!(
        TransferProperty::try_from(EnumItem::In).err(),
        Some(AutosarAbstractionError::ValueConversionError {
            value: "IN".to_string(),
            dest: "TransferProperty".to_string(),
        })
    );
}

#[test]
fn communication_direction_conversions() {
    assert_eq!(CommunicationDirection::In.to_enum_item(), EnumItem::In);
    assert_eq!(CommunicationDirection::Out.to_enum_item(), EnumItem::Out);
    assert_eq!(
        CommunicationDirection::try_from(EnumItem::Out).unwrap(),
        CommunicationDirection::Out
    );
    assert!(CommunicationDirection::try_from(EnumItem::Pending).is_err());
}

#[test]
fn referrers_of_one_kind() {
    let parents = vec![
        r(ElementName::ISignalGroup, "/test/g1"),
        r(ElementName::Other, "/test/mapping"),
        r(ElementName::ISignalGroup, "/test/g2"),
    ];
    assert_eq!(
        refs_of_kind(&parents, ElementName::ISignalGroup),
        vec![
            r(ElementName::ISignalGroup, "/test/g1"),
            r(ElementName::ISignalGroup, "/test/g2")
        ]
    );
    assert!(refs_of_kind(&parents, ElementName::ISignalTriggering).is_empty());
}

#[test]
fn removal_candidates_in_order() {
    let mut sys_signal = SystemSignal::new("sys_signal", "/test");
    let dt = r(ElementName::SwBaseType, "/test/sw_base_type");
    let mut signal = ISignal::new("signal", "/test", 8, &sys_signal, Some(&dt)).unwrap();
    let xf = r(ElementName::DataTransformation, "/test/dts/xf");
    signal.add_data_transformation(&xf).unwrap();
    let group = r(ElementName::ISignalGroup, "/test/group");
    assert_eq!(
        signal.removal_candidates(Some(&group)),
        vec![
            group,
            dt,
            r(ElementName::SystemSignal, "/test/sys_signal"),
            xf
        ]
    );
    assert!(sys_signal.removal_candidates().is_empty());
    let cm = r(ElementName::CompuMethod, "/test/cm");
    sys_signal.set_compu_method(&cm).unwrap();
    sys_signal
        .set_unit(&Unit {
            path: "/test/unit".to_string(),
        })
        .unwrap();
    assert_eq!(
        sys_signal.removal_candidates(),
        vec![r(ElementName::Unit, "/test/unit"), cm]
    );
    let st = ISignalTriggering::new(&signal, "/c", &vec![]).unwrap();
    assert_eq!(st.removal_candidates(), vec![signal.element_ref()]);
}

#[test]
fn triggering_name_made_unique() {
    let sys_signal = SystemSignal::new("sys_signal", "/test");
    let signal = ISignal::new("signal", "/test", 8, &sys_signal, None).unwrap();
    let taken = vec!["ST_signal".to_string(), "ST_signal_1".to_string(), "other".to_string()];
    let st = ISignalTriggering::new(&signal, "/c", &taken).unwrap();
    assert_eq!(st.name().as_deref(), Some("ST_signal_2"));
    assert_eq!(st.element_ref().path, "/c/ST_signal_2");
    let st = ISignalTriggering::new(&signal, "/c", &vec!["ST_signal_1".to_string()]).unwrap();
    assert_eq!(st.name().as_deref(), Some("ST_signal"));
}

#[test]
fn signal_element_with_two_init_values_is_taken() {
    let mut e = Element::new(ElementName::ISignal);
    e.push_sub_element(Element::new(ElementName::InitValue));
    e.push_sub_element(Element::new(ElementName::InitValue));
    let mut signal = ISignal::try_from("/test/s".to_string(), e).unwrap();
    assert_eq!(signal.init_value(), None);
    // setting fills the first INIT-VALUE and reads back
    signal.set_init_value(Some(&zero()), SchemaSupport::latest()).unwrap();
    assert_eq!(signal.init_value(), Some(zero()));
}

#[test]
fn still_used_by_kind() {
    assert!(still_used(ElementName::ISignalGroup, 1, 0));
    assert!(!still_used(ElementName::ISignalGroup, 0, 3));
    assert!(still_used(ElementName::SwBaseType, 0, 1));
    assert!(!still_used(ElementName::SwBaseType, 2, 0));
}

#[test]
fn removal_by_kind() {
    assert_eq!(removal_kind(ElementName::ISignal), RemovalKind::Signal);
    assert_eq!(removal_kind(ElementName::SystemSignal), RemovalKind::SystemSignal);
    assert_eq!(removal_kind(ElementName::ISignalGroup), RemovalKind::SignalGroup);
    assert_eq!(removal_kind(ElementName::ISignalTriggering), RemovalKind::Triggering);
    assert_eq!(removal_kind(ElementName::CompuMethod), RemovalKind::Element);
}

#[test]
fn used_items_stay() {
    let group = r(ElementName::ISignalGroup, "/test/group");
    let unit = r(ElementName::Unit, "/test/unit");
    let facts = vec![
        UsageFacts { item: group.clone_ref(), signal_count: 1, referrer_count: 0 },
        UsageFacts { item: unit.clone_ref(), signal_count: 0, referrer_count: 2 },
    ];
    assert!(dependent_removals(true, &facts).is_empty());
    let facts = vec![
        UsageFacts { item: group.clone_ref(), signal_count: 0, referrer_count: 4 },
        UsageFacts { item: unit.clone_ref(), signal_count: 0, referrer_count: 0 },
    ];
    assert_eq!(
        dependent_removals(true, &facts),
        vec![
            Removal { item: group, how: RemovalKind::SignalGroup },
            Removal { item: unit, how: RemovalKind::Element },
        ]
    );
}

#[test]
fn system_signal_removals_take_referring_signals() {
    let sys_signal = SystemSignal::new("sys_signal", "/test");
    let signal = r(ElementName::ISignal, "/test/signal");
    let group = r(ElementName::SystemSignalGroup, "/test/group");
    let parents = vec![signal.clone_ref(), group];
    assert_eq!(
        sys_signal.removals(&parents),
        vec![
            Removal { item: signal, how: RemovalKind::Signal },
            Removal { item: sys_signal.element_ref(), how: RemovalKind::Element },
        ]
    );
}

#[test]
fn isignal_group_removals_take_mappings() {
    let sys_group = SystemSignalGroup::new("sys_group", "/test");
    let group = ISignalGroup::new("group", "/test", &sys_group);
    let mapping = r(ElementName::SenderReceiverToSignalMapping, "/test/mapping");
    let pdu = r(ElementName::ISignalToIPduMapping, "/test/pdu/mapping");
    assert_eq!(
        group.removals(&vec![pdu, mapping.clone_ref()]),
        vec![
            Removal { item: group.element_ref(), how: RemovalKind::Element },
            Removal { item: mapping, how: RemovalKind::Element },
        ]
    );
}

#[test]
fn triggering_removals_take_ports() {
    let sys_signal = SystemSignal::new("sys_signal", "/test");
    let signal = ISignal::new("signal", "/test", 8, &sys_signal, None).unwrap();
    let mut st = ISignalTriggering::new(&signal, "/test/cluster/channel", &vec![]).unwrap();
    let port = match st
        .connect_to_ecu(&vec![], &r(ElementName::EcuInstance, "/test/ecu"), CommunicationDirection::Out, Some("/test/ecu/conn"))
        .unwrap()
    {
        ConnectedPort::Created(p) => p,
        ConnectedPort::Existing(_) => panic!("no port existed"),
    };
    assert_eq!(
        st.removals(),
        vec![
            Removal { item: port.element_ref(), how: RemovalKind::Element },
            Removal { item: st.element_ref(), how: RemovalKind::Element },
        ]
    );
}
