use chuni_dump::devices::{
    comma_split, pick_interface, Address, Device, Interface, InvalidNetmask, IpAddress, Network,
    CABINET_NETMASK, CABINET_NETWORK,
};

fn v4(a: u8, b: u8, c: u8, d: u8) -> IpAddress {
    IpAddress::V4(u32::from_be_bytes([a, b, c, d]))
}

fn with_mask(addr: IpAddress, mask: IpAddress) -> Address {
    Address { addr, netmask: Some(mask) }
}

fn interface(name: &str, addresses: Vec<Address>) -> Interface {
    Interface { name: String::from(name), desc: None, addresses }
}

#[test]
fn comma_split_joins_with_comma_and_space() {
    let items = [String::from("10.0.0.1/8"), String::from("fe80::1/64"), String::from("x")];
    assert_eq!(comma_split(&items), "10.0.0.1/8, fe80::1/64, x");
}

#[test]
fn comma_split_of_one_item_is_the_item() {
    assert_eq!(comma_split(&[String::from("192.168.139.10/24")]), "192.168.139.10/24");
}

#[test]
fn comma_split_of_nothing_is_empty() {
    assert_eq!(comma_split(&[]), "");
}

#[test]
fn comma_split_keeps_empty_items() {
    assert_eq!(comma_split(&[String::new(), String::new()]), ", ");
}

#[test]
fn comma_split_matches_join() {
    let items: Vec<String> = (0..7).map(|i| format!("item{}", i)).collect();
    assert_eq!(comma_split(&items), items.join(", "));
}

#[test]
fn cabinet_network_constants() {
    assert_eq!(CABINET_NETWORK.to_be_bytes(), [192, 168, 139, 0]);
    assert_eq!(CABINET_NETMASK.to_be_bytes(), [255, 255, 255, 0]);
}

#[test]
fn network_takes_its_prefix_from_the_netmask() {
    let a = with_mask(v4(192, 168, 139, 10), v4(255, 255, 255, 0));
    assert_eq!(a.network(), Ok(Network { addr: v4(192, 168, 139, 10), prefix: 24 }));
    let a = with_mask(v4(10, 1, 2, 3), v4(255, 0, 0, 0));
    assert_eq!(a.network(), Ok(Network { addr: v4(10, 1, 2, 3), prefix: 8 }));
    let a = with_mask(v4(10, 1, 2, 3), v4(255, 255, 255, 255));
    assert_eq!(a.network(), Ok(Network { addr: v4(10, 1, 2, 3), prefix: 32 }));
    let a = with_mask(v4(10, 1, 2, 3), v4(0, 0, 0, 0));
    assert_eq!(a.network(), Ok(Network { addr: v4(10, 1, 2, 3), prefix: 0 }));
    let a = with_mask(v4(10, 1, 2, 3), v4(255, 255, 254, 0));
    assert_eq!(a.network(), Ok(Network { addr: v4(10, 1, 2, 3), prefix: 23 }));
}

#[test]
fn network_of_an_ipv6_address() {
    let addr = IpAddress::V6(0xfe80_0000_0000_0000_0000_0000_0000_0001);
    let mask = IpAddress::V6(0xffff_ffff_ffff_ffff_0000_0000_0000_0000);
    assert_eq!(with_mask(addr, mask).network(), Ok(Network { addr, prefix: 64 }));
    let mask = IpAddress::V6(u128::MAX);
    assert_eq!(with_mask(addr, mask).network(), Ok(Network { addr, prefix: 128 }));
    let mask = IpAddress::V6(0xffff_ffff_ffff_fff8_0000_0000_0000_0000);
    assert_eq!(with_mask(addr, mask).network(), Ok(Network { addr, prefix: 61 }));
}

#[test]
fn network_without_a_netmask_has_prefix_zero() {
    let a = Address { addr: v4(192, 168, 139, 10), netmask: None };
    assert_eq!(a.network(), Ok(Network { addr: v4(192, 168, 139, 10), prefix: 0 }));
}

#[test]
fn network_with_a_broken_netmask_is_an_error() {
    let a = with_mask(v4(192, 168, 139, 10), v4(255, 0, 255, 0));
    assert_eq!(a.network(), Err(InvalidNetmask));
    let a = with_mask(v4(192, 168, 139, 10), v4(0, 0, 0, 1));
    assert_eq!(a.network(), Err(InvalidNetmask));
    let addr = IpAddress::V6(1);
    let a = with_mask(addr, IpAddress::V6(0xffff_0000_ffff_0000_0000_0000_0000_0000));
    assert_eq!(a.network(), Err(InvalidNetmask));
    let a = with_mask(addr, IpAddress::V6(0xffff_0000_0000_0000_0000_0000_0000_0001));
    assert_eq!(a.network(), Err(InvalidNetmask));
}

#[test]
fn network_with_a_netmask_of_the_other_family() {
    let six = IpAddress::V6(1);
    let a = with_mask(v4(10, 0, 0, 1), IpAddress::V6(0xffff_ffff_ffff_ffff_0000_0000_0000_0000));
    assert_eq!(a.network(), Err(InvalidNetmask));
    let a = with_mask(v4(10, 0, 0, 1), IpAddress::V6(0xffff_ff00_0000_0000_0000_0000_0000_0000));
    assert_eq!(a.network(), Ok(Network { addr: v4(10, 0, 0, 1), prefix: 24 }));
    let a = with_mask(six, v4(255, 255, 0, 0));
    assert_eq!(a.network(), Ok(Network { addr: six, prefix: 16 }));
}

#[test]
fn describe_lists_the_network_of_each_address() {
    let i = Interface {
        name: String::from("eth0"),
        desc: Some(String::from("wired")),
        addresses: vec![
            with_mask(v4(192, 168, 139, 10), v4(255, 255, 255, 0)),
            Address { addr: IpAddress::V6(1), netmask: None },
        ],
    };
    assert_eq!(
        Device::describe(i),
        Ok(Device {
            name: String::from("eth0"),
            desc: String::from("wired"),
            addrs: vec![
                Network { addr: v4(192, 168, 139, 10), prefix: 24 },
                Network { addr: IpAddress::V6(1), prefix: 0 },
            ],
        })
    );
}

#[test]
fn describe_without_description_or_addresses() {
    assert_eq!(
        Device::describe(interface("lo", vec![])),
        Ok(Device { name: String::from("lo"), desc: String::new(), addrs: vec![] })
    );
}

#[test]
fn describe_with_a_broken_netmask_is_an_error() {
    let i = interface(
        "eth1",
        vec![
            with_mask(v4(10, 0, 0, 1), v4(255, 0, 0, 0)),
            with_mask(v4(10, 0, 0, 2), v4(255, 0, 0, 255)),
        ],
    );
    assert_eq!(Device::describe(i), Err(InvalidNetmask));
}

#[test]
fn address_on_the_cabinet_network() {
    let mask = v4(255, 255, 255, 0);
    assert!(with_mask(v4(192, 168, 139, 10), mask).is_on_cabinet_network());
    assert!(with_mask(v4(192, 168, 139, 0), mask).is_on_cabinet_network());
    assert!(with_mask(v4(192, 168, 139, 255), mask).is_on_cabinet_network());
    assert!(!with_mask(v4(192, 168, 138, 255), mask).is_on_cabinet_network());
    assert!(!with_mask(v4(192, 168, 140, 0), mask).is_on_cabinet_network());
    assert!(!with_mask(v4(192, 168, 139, 10), v4(255, 255, 0, 0)).is_on_cabinet_network());
    assert!(!Address { addr: v4(192, 168, 139, 10), netmask: None }.is_on_cabinet_network());
    assert!(!with_mask(IpAddress::V6(0xc0a8_8b0a), mask).is_on_cabinet_network());
    assert!(!with_mask(v4(192, 168, 139, 10), IpAddress::V6(0xffff_ff00)).is_on_cabinet_network());
}

#[test]
fn pick_interface_takes_the_first_that_reaches_the_cabinets() {
    let mask = v4(255, 255, 255, 0);
    let interfaces = vec![
        interface("lo", vec![with_mask(v4(127, 0, 0, 1), v4(255, 0, 0, 0))]),
        interface("eth0", vec![with_mask(v4(192, 168, 1, 5), mask)]),
        interface(
            "eth1",
            vec![
                Address { addr: IpAddress::V6(1), netmask: None },
                with_mask(v4(192, 168, 139, 7), mask),
            ],
        ),
        interface("eth2", vec![with_mask(v4(192, 168, 139, 8), mask)]),
    ];
    assert_eq!(pick_interface(&interfaces), Some(2));
    assert!(interfaces[2].is_reaching_cabinets());
    assert!(!interfaces[1].is_reaching_cabinets());
    assert_eq!(pick_interface(&interfaces[..2]), None);
    assert_eq!(pick_interface(&interfaces[3..]), Some(0));
    assert_eq!(pick_interface(&[]), None);
}
