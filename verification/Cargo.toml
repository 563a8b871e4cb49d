[package]
name = "zortilwatch"
version = "0.1.0"
edition = "2021"
publish = false

[dependencies]
base64 = "=0.22.1"
bytecodec = "=0.5.0"
chacha20poly1305 = "=0.10.1"
console_error_panic_hook = "=0.1.7"
getrandom = "=0.2.17"
hkdf = "=0.12.4"
hmac = "=0.12.1"
rand_chacha = "=0.3.1"
rand_core = "=0.6.4"
rustls = { version = "0.23", default-features = false, features = ["ring", "std", "tls12"] }
serde = { version = "=1.0.229", features = ["derive"] }
serde_json = "=1.0.154"
sha2 = "=0.10.9"
spake2 = "=0.4.0"
str0m = { version = "=0.24.1", default-features = false, features = ["rust-crypto"] }
stun_codec = "=0.4.0"
stunclient = "=0.4.2"
tungstenite = { version = "=0.24.0", features = ["rustls-tls-webpki-roots"] }
wasm-bindgen = "=0.2.130"
windows-capture = "=2.0.1"
windows-service = "=0.8.1"

[dependencies.windows]
version = "=0.61.3"
features = [
    "Win32_Foundation",
    "Win32_Graphics_Direct3D",
    "Win32_Graphics_Direct3D11",
    "Win32_Graphics_Dxgi",
    "Win32_Graphics_Dxgi_Common",
    "Win32_Graphics_Gdi",
    "Win32_Media_MediaFoundation",
    "Win32_NetworkManagement_IpHelper",
    "Win32_NetworkManagement_Ndis",
    "Win32_Networking_WinSock",
    "Win32_Security",
    "Win32_System_Com",
    "Win32_System_Com_StructuredStorage",
    "Win32_System_DataExchange",
    "Win32_System_Environment",
    "Win32_System_LibraryLoader",
    "Win32_System_Memory",
    "Win32_System_Ole",
    "Win32_System_Registry",
    "Win32_System_RemoteDesktop",
    "Win32_System_Shutdown",
    "Win32_System_StationsAndDesktops",
    "Win32_System_Threading",
    "Win32_System_Variant",
    "Win32_UI_Input_KeyboardAndMouse",
    "Win32_UI_WindowsAndMessaging",
]
