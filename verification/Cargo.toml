[package]
name = "weather_station"
version = "0.1.0"
edition = "2021"
publish = false

[dependencies]
heapless = "=0.8.0"
embassy-sync = "=0.6.2"
embassy-time = "=0.3.2"
embassy-futures = "=0.1.2"
embassy-executor = "=0.6.3"
embassy-net = { version = "=0.4.0", features = ["udp", "dhcpv4", "proto-ipv4", "medium-ethernet"] }
embassy-embedded-hal = "=0.2.0"
embassy-usb-logger = "=0.2.0"
cyw43 = "=0.2.0"
embedded-graphics = "=0.7.1"
st7789 = "=0.6.1"
display-interface = "=0.4.1"
embedded-hal = "=1.0.0"
static_cell = "=2.1.1"
byte-slice-cast = { version = "=1.2.3", default-features = false }
log = "=0.4.34"
