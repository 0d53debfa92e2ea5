use cserver::ip::{
    ERROR_STRING_INVALID_IP, ERROR_STRING_INVALID_IP_OCT1, ERROR_STRING_INVALID_IP_OCT2,
    ERROR_STRING_INVALID_IP_OCT3, ERROR_STRING_INVALID_IP_OCT4, ERROR_STRING_INVALID_NO_PORT,
    ERROR_STRING_INVALID_PORT, IP,
};

#[test]
fn ip_valid() {
    let test_ip = String::from("192.168.0.1:8094");

    if let Ok(ip) = IP::new(&test_ip) {
        assert_eq!(ip.get(), test_ip,);
    } else {
        assert!(false);
    }
}

#[test]
fn ip_invalid_ip() {
    match IP::new("abc") {
        Ok(_) => {
            assert!(false);
        }
        Err(e) => {
            assert_eq!(e, ERROR_STRING_INVALID_IP);
        }
    }
}

#[test]
fn ip_invalid_no_port() {
    match IP::new("192.168.0.1") {
        Ok(_) => {
            assert!(false);
        }
        Err(e) => {
            assert_eq!(e, ERROR_STRING_INVALID_NO_PORT);
        }
    }
}

#[test]
fn ip_invalid_oct1() {
    match IP::new("256.168.0.1:8094") {
        Ok(_) => {
            assert!(false);
        }
        Err(e) => {
            assert_eq!(e, ERROR_STRING_INVALID_IP_OCT1);
        }
    }
}

#[test]
fn ip_invalid_oct2() {
    match IP::new("192.256.0.1:8094") {
        Ok(_) => {
            assert!(false);
        }
        Err(e) => {
            assert_eq!(e, ERROR_STRING_INVALID_IP_OCT2);
        }
    }
}

#[test]
fn ip_invalid_oct3() {
    match IP::new("192.168.256.1:8094") {
        Ok(_) => {
            assert!(false);
        }
        Err(e) => {
            assert_eq!(e, ERROR_STRING_INVALID_IP_OCT3);
        }
    }
}

#[test]
fn ip_invalid_oct4() {
    match IP::new("192.168.0.256:8094") {
        Ok(_) => {
            assert!(false);
        }
        Err(e) => {
            assert_eq!(e, ERROR_STRING_INVALID_IP_OCT4);
        }
    }
}

#[test]
fn ip_invalid_port() {
    match IP::new("192.168.0.1:66000") {
        Ok(_) => {
            assert!(false);
        }
        Err(e) => {
            assert_eq!(e, ERROR_STRING_INVALID_PORT);
        }
    }
}

#[test]
fn ip_field_edges() {
    assert!(IP::new("0.0.0.0:0").is_ok());
    assert!(IP::new("255.255.255.255:65535").is_ok());
    assert!(IP::new("+1.2.3.4:80").is_ok());
    assert_eq!(IP::new("1.2.3.4:65536").err(), Some(ERROR_STRING_INVALID_PORT));
    assert_eq!(IP::new("1.2.3.4:99999999999").err(), Some(ERROR_STRING_INVALID_PORT));
    assert_eq!(IP::new("-1.2.3.4:80").err(), Some(ERROR_STRING_INVALID_IP_OCT1));
    assert_eq!(IP::new("1..3.4:80").err(), Some(ERROR_STRING_INVALID_IP_OCT2));
    assert_eq!(IP::new("1.2.3.x:80").err(), Some(ERROR_STRING_INVALID_IP_OCT4));
    assert_eq!(IP::new("1.2.3.4:").err(), Some(ERROR_STRING_INVALID_PORT));
    assert_eq!(IP::new("1.2.3.4:5:6").err(), Some(ERROR_STRING_INVALID_NO_PORT));
    assert_eq!(IP::new("1.2.3.4.5:6").err(), Some(ERROR_STRING_INVALID_IP));
}
