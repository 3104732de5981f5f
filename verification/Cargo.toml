[package]
name = "uart_matrix"
version = "0.1.0"
edition = "2021"
publish = false

[dependencies]
embedded-graphics = "=0.7.1"
heapless = "=0.7.17"
profont = "=0.5.0"
ibm437 = "=0.1.4"
cortex-m = "0.6"
cortex-m-rt = "0.6"
embedded-hal = "0.2"
nb = "0.1"
stm32f1xx-hal = { version = "0.7", features = ["stm32f103", "rt", "medium", "stm32-usbd"] }
usb-device = "0.2"
usbd-serial = "0.1"
