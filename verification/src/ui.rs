pub mod rofi;
