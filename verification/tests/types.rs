use dvsynth::graph::EdgeEndpoint;
use dvsynth::node::ty::bytes::{bytes_if_sized, bytes_mut_if_sized, range_mut, Bytes, BytesMut};
use dvsynth::node::ty::ptr::{bytes_to_ptr, typed_bytes_to_ptr};
use dvsynth::node::ty::{
    is_pointer, ArrayType, ListAllocation, ListType, OptionFlags, OptionType, PrimitiveKind, PrimitiveTypeEnum,
    Shared, TypeEnum, Unique,
};
use dvsynth::node::{
    Channel, ChannelDirection, ChannelPassBy, ChannelValue, ChannelValues, ConnectionPassBy, NodeConfiguration,
};

fn prim(p: PrimitiveTypeEnum) -> TypeEnum {
    TypeEnum::Primitive(p)
}

#[test]
fn value_sizes() {
    assert_eq!(prim(PrimitiveTypeEnum::U8).value_size_if_sized(), Some(1));
    assert_eq!(prim(PrimitiveTypeEnum::I128).value_size_if_sized(), Some(16));
    assert_eq!(prim(PrimitiveTypeEnum::F64).value_size_if_sized(), Some(8));
    let option = TypeEnum::Option(OptionType::new(prim(PrimitiveTypeEnum::U32)));
    assert_eq!(option.value_size_if_sized(), Some(5));
    let array = TypeEnum::Array(ArrayType::new(prim(PrimitiveTypeEnum::U16), 3));
    assert_eq!(array.value_size_if_sized(), Some(6));
    let list = TypeEnum::List(ListType::new(prim(PrimitiveTypeEnum::U8)));
    assert_eq!(list.value_size_if_sized(), None);
    assert!(!list.is_sized());
    let pointer = TypeEnum::Unique(Unique::new(list));
    assert_eq!(pointer.value_size_if_sized(), Some(8));
}

#[test]
fn compatibility_is_symmetric() {
    let u32_ty = prim(PrimitiveTypeEnum::U32);
    let bytes = TypeEnum::Array(ArrayType::new(prim(PrimitiveTypeEnum::U8), 4));
    let option = TypeEnum::Option(OptionType::new(prim(PrimitiveTypeEnum::U8)));
    assert!(!option.is_abi_compatible(&option));
    assert!(u32_ty.is_abi_compatible(&bytes));
    assert!(bytes.is_abi_compatible(&u32_ty));
    let wide = TypeEnum::Array(ArrayType::new(prim(PrimitiveTypeEnum::U8), 5));
    assert!(!u32_ty.is_abi_compatible(&wide));
    assert!(!wide.is_abi_compatible(&u32_ty));
    let floats = TypeEnum::Array(ArrayType::new(prim(PrimitiveTypeEnum::F32), 1));
    assert!(!u32_ty.is_abi_compatible(&floats));
    assert!(!floats.is_abi_compatible(&u32_ty));
    assert!(!prim(PrimitiveTypeEnum::U32).is_abi_compatible(&prim(PrimitiveTypeEnum::I32)));
    assert!(PrimitiveKind::UnsignedInteger.is_abi_compatible(&PrimitiveKind::SignedInteger));
    assert!(!PrimitiveKind::Float.is_abi_compatible(&PrimitiveKind::SignedInteger));
}

#[test]
fn pointers() {
    let unique = TypeEnum::Unique(Unique::new(prim(PrimitiveTypeEnum::U8)));
    let shared = TypeEnum::Shared(Shared::new(prim(PrimitiveTypeEnum::U8)));
    assert!(is_pointer(&unique));
    assert!(!is_pointer(&shared));
    assert!(!is_pointer(&prim(PrimitiveTypeEnum::U64)));
    let raw = [7u8, 1, 0, 0, 0, 0, 0, 0];
    let ptr = bytes_to_ptr::<()>(Bytes::Bytes(&raw));
    assert_eq!(ptr.index, 263);
    assert_eq!(typed_bytes_to_ptr::<()>(Bytes::Bytes(&raw), &unique).map(|p| p.index), Some(263));
    assert_eq!(typed_bytes_to_ptr::<()>(Bytes::Bytes(&raw), &shared), None);
}

#[test]
fn option_flags_roundtrip() {
    assert_eq!(OptionFlags::try_from(0), Ok(OptionFlags::Vacant));
    assert_eq!(OptionFlags::try_from(1), Ok(OptionFlags::Occupied));
    assert_eq!(OptionFlags::try_from(2), Err(()));
    assert_eq!(OptionFlags::try_from(OptionFlags::Occupied.as_byte()), Ok(OptionFlags::Occupied));
    let option = OptionType::new(prim(PrimitiveTypeEnum::U16));
    let mut data = vec![9u8, 9, 0];
    option.set_flags(&mut data, OptionFlags::Occupied);
    assert_eq!(data, vec![9, 9, 1]);
    assert_eq!(option.get_flags(&data), OptionFlags::Occupied);
    option.set_flags(&mut data, OptionFlags::Vacant);
    assert_eq!(option.get_flags(&data), OptionFlags::Vacant);
}

#[test]
fn list_allocation_push_pop() {
    let mut list = ListAllocation::new(prim(PrimitiveTypeEnum::U16));
    assert_eq!(list.item_size, 2);
    assert_eq!(list.len(), 0);
    list.push(&[1, 2]);
    assert_eq!(list.len(), 1);
    assert_eq!(list.get(0), Some(&[1u8, 2][..]));
    list.push(&[3, 4]);
    assert_eq!(list.len(), 2);
    assert_eq!(list.get(0), None);
    assert_eq!(list.get(1), Some(&[3u8, 4][..]));
    assert_eq!(list.pop(), Ok(()));
    assert_eq!(list.data, vec![1, 2]);
    assert_eq!(list.pop(), Ok(()));
    assert_eq!(list.pop(), Err(()));
}

#[test]
fn global_channel_indices() {
    let ty = prim(PrimitiveTypeEnum::U8);
    let configuration = NodeConfiguration::new()
        .with_borrow(Channel::new("a".to_string(), ty.clone()))
        .with_borrow(Channel::new("b".to_string(), ty.clone()))
        .with_borrow_mut(Channel::new("c".to_string(), ty.clone()))
        .with_input_value(Channel::new("d".to_string(), ty.clone()))
        .with_output_value(Channel::new("e".to_string(), ty));
    let value0 = EdgeEndpoint { channel_index: 0, pass_by: ChannelPassBy::Value };
    let mut0 = EdgeEndpoint { channel_index: 0, pass_by: ChannelPassBy::MutableReference };
    assert_eq!(configuration.get_global_channel_index(value0), 3);
    assert_eq!(configuration.get_global_channel_index(mut0), 2);
    assert!(configuration.contains_channel(ChannelDirection::In, value0));
    assert!(!configuration.contains_channel(ChannelDirection::In, EdgeEndpoint { channel_index: 1, pass_by: ChannelPassBy::Value }));
    let inputs = configuration.channels(ChannelDirection::In);
    let titles: Vec<&str> = inputs.iter().map(|c| c.title).collect();
    assert_eq!(titles, vec!["a", "b", "c", "d"]);
    let outputs = configuration.channels(ChannelDirection::Out);
    let titles: Vec<&str> = outputs.iter().map(|c| c.title).collect();
    assert_eq!(titles, vec!["a", "b", "c", "e"]);
    assert_eq!(configuration.channel(ChannelDirection::Out, value0).title, "e");
}

#[test]
fn directions_and_pass_bys() {
    assert_eq!(ChannelDirection::In.inverse(), ChannelDirection::Out);
    assert_eq!(ChannelDirection::Out.inverse().inverse(), ChannelDirection::Out);
    assert!(ConnectionPassBy::Mutable.can_be_downgraded_to(ConnectionPassBy::Immutable));
    assert!(ConnectionPassBy::Immutable.can_be_downgraded_to(ConnectionPassBy::Immutable));
    assert!(!ConnectionPassBy::Immutable.can_be_downgraded_to(ConnectionPassBy::Mutable));
    assert_eq!(ConnectionPassBy::from(ChannelPassBy::SharedReference), ConnectionPassBy::Immutable);
    assert_eq!(ConnectionPassBy::from(ChannelPassBy::Value), ConnectionPassBy::Mutable);
    assert_eq!(ChannelPassBy::MutableReference.get_category_index(), 1);
}

#[test]
fn channel_values_are_zeroed() {
    let value = ChannelValue::zeroed(&prim(PrimitiveTypeEnum::U32)).unwrap();
    assert_eq!(value.data, vec![0, 0, 0, 0]);
    assert!(ChannelValue::zeroed(&TypeEnum::List(ListType::new(prim(PrimitiveTypeEnum::U8)))).is_none());
    let channels = vec![
        Channel::new("a".to_string(), prim(PrimitiveTypeEnum::U8)),
        Channel::new("b".to_string(), prim(PrimitiveTypeEnum::U16)),
    ];
    let values = ChannelValues::zeroed(&channels);
    assert_eq!(values.value(1).data, vec![0, 0]);
}

#[test]
fn mutable_byte_ranges() {
    let mut data = [1u8, 2, 3, 4];
    {
        let middle = range_mut(&mut data, 1, 3);
        assert_eq!(middle, &[2u8, 3][..]);
        middle[0] = 9;
    }
    assert_eq!(data, [1, 9, 3, 4]);
    let mut view = BytesMut::<'_, u32>::Bytes(&mut data);
    {
        let again = view.borrow_mut();
        let slice = again.bytes_slice_mut(2, 4).unwrap();
        slice.bytes_mut().unwrap()[1] = 7;
    }
    view.bytes_mut().unwrap()[0] = 0;
    assert_eq!(data, [0, 9, 3, 7]);
    let mut object = 5u32;
    let view: BytesMut<'_, u32> = BytesMut::Object { ty_name: "counter", data: &mut object };
    assert!(matches!(view.borrow(), Bytes::Object { data: &5, .. }));
    *view.downcast_mut_unwrap() = 6;
    assert_eq!(object, 6);
    let shared: Bytes<'_, u32> = Bytes::Object { ty_name: "counter", data: &object };
    assert_eq!(*shared.downcast_ref_unwrap(), 6);
    let view: BytesMut<'_, u32> = BytesMut::Object { ty_name: "counter", data: &mut object };
    assert_eq!(*view.downcast_ref_unwrap(), 6);
    let mut bytes = [1u8];
    assert!(BytesMut::<'_, u32>::Bytes(&mut bytes).bytes_slice_mut(0, 1).is_some());
    let view: BytesMut<'_, u32> = BytesMut::Object { ty_name: "counter", data: &mut object };
    assert!(view.bytes_slice_mut(0, 0).is_none());
}

#[test]
fn typed_list_access() {
    let ty = ListType::new(prim(PrimitiveTypeEnum::U16));
    let mut list = ListAllocation::new(prim(PrimitiveTypeEnum::U16));
    assert_eq!(ty.len(&list), 0);
    assert_eq!(ty.get(&list, 0), Err(()));
    assert_eq!(ty.push_item_bytes_with(&mut list, |bytes: &mut [u8]| bytes[0] = 7), Ok(()));
    assert_eq!(ty.push_item_bytes_with(&mut list, |bytes: &mut [u8]| bytes[1] = 9), Ok(()));
    assert_eq!(list.data, vec![7, 0, 0, 9]);
    assert_eq!(ty.len(&list), 2);
    assert_eq!(ty.get(&list, 1), Ok(&[0u8, 9][..]));
    assert_eq!(ty.get(&list, 2), Err(()));
    ty.get_mut(&mut list, 0).unwrap()[1] = 5;
    assert_eq!(list.data, vec![7, 5, 0, 9]);
    assert!(ty.get_mut(&mut list, 2).is_err());
    let pointers = ListType::new(TypeEnum::Shared(Shared::new(prim(PrimitiveTypeEnum::U8))));
    let mut pointer_list = ListAllocation::new(TypeEnum::Shared(Shared::new(prim(PrimitiveTypeEnum::U8))));
    assert_eq!(pointers.push_item_bytes_with(&mut pointer_list, |_bytes: &mut [u8]| {}), Err(()));
    assert!(pointer_list.data.is_empty());
}

#[test]
fn option_value_access() {
    let ty = OptionType::new(prim(PrimitiveTypeEnum::U16));
    let mut data = vec![3u8, 4, 1];
    assert!(ty.is_some(&data));
    assert!(!ty.is_none(&data));
    assert_eq!(ty.get_bytes(&data), Some(&[3u8, 4][..]));
    ty.get_bytes_mut(&mut data).unwrap()[0] = 8;
    assert_eq!(data, vec![8, 4, 1]);
    let mut empty = vec![3u8, 4, 0];
    assert!(ty.is_none(&empty));
    assert_eq!(ty.get_bytes(&empty), None);
    assert!(ty.get_bytes_mut(&mut empty).is_none());
}

#[test]
fn bytes_of_sized_values() {
    let data = [1u8, 2];
    let u16_ty = prim(PrimitiveTypeEnum::U16);
    assert_eq!(bytes_if_sized(&u16_ty, Bytes::<'_, ()>::Bytes(&data)), Some(&[1u8, 2][..]));
    let pointer = TypeEnum::Unique(Unique::new(prim(PrimitiveTypeEnum::U8)));
    assert_eq!(bytes_if_sized(&pointer, Bytes::<'_, ()>::Bytes(&data)), None);
    let mut data = [1u8, 2];
    bytes_mut_if_sized(&u16_ty, BytesMut::<'_, ()>::Bytes(&mut data)).unwrap()[1] = 6;
    assert_eq!(data, [1, 6]);
    assert!(bytes_mut_if_sized(&pointer, BytesMut::<'_, ()>::Bytes(&mut data)).is_none());
}
